//! Looking users up, and reporting whether the token works.

use crate::args::{Args, arg_items, array_arg};
use crate::flow::{Stage, StageView, Step, StepView, fail_with, failed, get, get_call, get_plain,
    one_pair, send, sent, succeed, succeeded};
use crate::gitlab::{ApiError, ApiResponse, ErrorView, ResponseView, answer};
use crate::json::{Json, JsonMap, JsonView, views};
use crate::lists::{text_at, text_field};
use crate::registry::ToolEntry;
use crate::text::same;
use crate::variables::{put_some, with_field};
use std::sync::Arc;
use vstd::prelude::*;
use vstd::string::*;

verus! {

// ------------------------------------------------------------------- users

/// The users from a position on are looked up.
pub open spec fn users_from(entry: Arc<ToolEntry>, args: Args, at: int, out: Args) -> StepView {
    match arg_items(args, "usernames"@) {
        None => failed("usernames must be an array of strings"@),
        Some(names) => if at < 0 || at >= names.len() {
            succeeded(JsonView::Object(out))
        } else {
            match names[at].text() {
                None => failed("usernames entries must be strings"@),
                Some(name) => sent(
                    get_call("/users"@, seq![("username"@, name)]),
                    entry,
                    args,
                    StageView::Users { at, out },
                ),
            }
        },
    }
}

/// The first user from a position on that has a name.
pub open spec fn user_from(users: Seq<JsonView>, name: Seq<char>, from: int) -> Option<int>
    decreases users.len() - from,
{
    if from < 0 || from >= users.len() {
        None
    } else if text_field(users[from], "username"@) == Some(name) {
        Some(from)
    } else {
        user_from(users, name, from + 1)
    }
}

/// The user of a name in a reply; a miss is a `null`, and so is a failure.
pub open spec fn user_in(reply: Result<ResponseView, ErrorView>, name: Seq<char>) -> JsonView {
    match reply {
        Ok(resp) => match resp.body {
            JsonView::Array(users) => match user_from(users, name, 0) {
                Some(i) => users[i],
                None => JsonView::Null,
            },
            _ => JsonView::Null,
        },
        Err(_) => JsonView::Null,
    }
}

/// A user was looked up, and the next one is.
pub open spec fn user_found(
    entry: Arc<ToolEntry>,
    args: Args,
    at: int,
    out: Args,
    reply: Result<ResponseView, ErrorView>,
) -> StepView {
    match arg_items(args, "usernames"@) {
        None => failed("usernames must be an array of strings"@),
        Some(names) => if at < 0 || at >= names.len() {
            succeeded(JsonView::Object(out))
        } else {
            match names[at].text() {
                None => failed("usernames entries must be strings"@),
                Some(name) => users_from(
                    entry,
                    args,
                    at + 1,
                    out.insert(name, user_in(reply, name)),
                ),
            }
        },
    }
}

/// The users from a position on are looked up, each separately.
pub fn get_users(entry: &Arc<ToolEntry>, args: JsonMap, at: usize, out: JsonMap) -> (r: Step)
    ensures
        r@ == users_from(*entry, args.fields(), at as int, out.fields()),
{
    let names = match array_arg(&args, "usernames") {
        Some(names) => names,
        None => {
            return fail_with("usernames must be an array of strings");
        },
    };
    if at >= names.len() {
        return succeed(Json::Object(out));
    }
    assert(views(names@)[at as int] == names@[at as int]@);
    let query = match names[at].as_str() {
        Some(name) => one_pair("username", name),
        None => {
            return fail_with("usernames entries must be strings");
        },
    };
    send(get("/users".to_string(), query), entry, args, Stage::Users { at, out })
}

/// The user of a name in a reply.
fn find_user(reply: Result<ApiResponse, ApiError>, name: &str) -> (r: Json)
    ensures
        r@ == user_in(answer(reply), name@),
{
    let body = match reply {
        Ok(resp) => resp.body,
        Err(_) => {
            return Json::Null;
        },
    };
    let users = match body.as_array() {
        Some(users) => users,
        None => {
            return Json::Null;
        },
    };
    for i in 0..users.len()
        invariant
            body@ == JsonView::Array(views(users@)),
            user_in(answer(reply), name@) == (match user_from(views(users@), name@, 0) {
                Some(k) => views(users@)[k],
                None => JsonView::Null,
            }),
            user_from(views(users@), name@, 0) == user_from(views(users@), name@, i as int),
    {
        assert(views(users@)[i as int] == users@[i as int]@);
        if let Some(found) = text_at(&users[i], "username") {
            if same(found, name) {
                return users[i].copy();
            }
        }
    }
    Json::Null
}

/// A user was looked up, and the next one is.
pub fn on_user(
    entry: &Arc<ToolEntry>,
    args: JsonMap,
    at: usize,
    out: JsonMap,
    reply: Result<ApiResponse, ApiError>,
) -> (r: Step)
    ensures
        r@ == user_found(*entry, args.fields(), at as int, out.fields(), answer(reply)),
{
    let names = match array_arg(&args, "usernames") {
        Some(names) => names,
        None => {
            return fail_with("usernames must be an array of strings");
        },
    };
    if at >= names.len() {
        return succeed(Json::Object(out));
    }
    assert(views(names@)[at as int] == names@[at as int]@);
    let name = match names[at].as_str() {
        Some(name) => name,
        None => {
            return fail_with("usernames entries must be strings");
        },
    };
    let user = find_user(reply, name);
    let mut out = out;
    out.put(name, user);
    let next: usize = at + 1;
    get_users(entry, args, next, out)
}

// ------------------------------------------------------------------ health

/// What is said of an instance that the token works or does not work for.
pub open spec fn health_base(authenticated: bool, url: Seq<char>) -> Map<Seq<char>, JsonView> {
    Map::<Seq<char>, JsonView>::empty().insert(
        "status"@,
        JsonView::Str(
            if authenticated {
                "ok"@
            } else {
                "error"@
            },
        ),
    ).insert("authenticated"@, JsonView::Bool(authenticated)).insert(
        "gitlab_url"@,
        JsonView::Str(url),
    )
}

/// The token does not work, and why.
pub open spec fn unhealthy(url: Seq<char>, error: Seq<char>) -> StepView {
    succeeded(
        JsonView::Object(health_base(false, url).insert("error"@, JsonView::Str(error))),
    )
}

/// The token works, and the version is asked for.
pub open spec fn version_sent(entry: Arc<ToolEntry>, args: Args) -> StepView {
    sent(get_call("/version"@, seq![]), entry, args, StageView::HealthVersion)
}

/// The token is tried as a user's.
pub open spec fn health_begun(entry: Arc<ToolEntry>, args: Args) -> StepView {
    sent(get_call("/user"@, seq![]), entry, args, StageView::Health)
}

/// A token that is no user's may be a job's.
pub open spec fn user_tried(
    entry: Arc<ToolEntry>,
    args: Args,
    url: Seq<char>,
    reply: Result<ResponseView, ErrorView>,
) -> StepView {
    match reply {
        Ok(_) => version_sent(entry, args),
        Err(e) => if e.status == 401 || e.status == 403 {
            sent(
                get_call("/job"@, seq![]),
                entry,
                args,
                StageView::HealthJob { error: e.text() },
            )
        } else {
            unhealthy(url, e.text())
        },
    }
}

/// The token was tried as a job's; what is reported is why it is no user's.
pub open spec fn job_tried(
    entry: Arc<ToolEntry>,
    args: Args,
    url: Seq<char>,
    error: Seq<char>,
    reply: Result<ResponseView, ErrorView>,
) -> StepView {
    match reply {
        Ok(_) => version_sent(entry, args),
        Err(_) => unhealthy(url, error),
    }
}

/// What is known of the instance is reported; a missing version does not make it
/// unhealthy.
pub open spec fn version_read(url: Seq<char>, reply: Result<ResponseView, ErrorView>) -> StepView {
    let base = health_base(true, url);
    succeeded(
        JsonView::Object(
            match reply {
                Ok(resp) => with_field(
                    with_field(
                        with_field(base, "version"@, resp.body.field("version"@)),
                        "revision"@,
                        resp.body.field("revision"@),
                    ),
                    "enterprise"@,
                    resp.body.field("enterprise"@),
                ),
                Err(_) => base,
            },
        ),
    )
}

/// What is said of an instance that the token works or does not work for.
fn base_of(authenticated: bool, url: &str) -> (r: JsonMap)
    ensures
        r.fields() == health_base(authenticated, url@),
{
    let mut out = JsonMap::empty();
    out.put(
        "status",
        if authenticated {
            Json::from_text("ok")
        } else {
            Json::from_text("error")
        },
    );
    out.put("authenticated", Json::Bool(authenticated));
    out.put("gitlab_url", Json::from_text(url));
    out
}

/// The token does not work, and why.
fn report_unhealthy(url: &str, error: String) -> (r: Step)
    ensures
        r@ == unhealthy(url@, error@),
{
    let mut out = base_of(false, url);
    out.put("error", Json::Str(error));
    succeed(Json::Object(out))
}

/// The token is tried as a user's.
pub fn health_check(entry: &Arc<ToolEntry>, args: JsonMap) -> (r: Step)
    ensures
        r@ == health_begun(*entry, args.fields()),
{
    send(get_plain("/user".to_string()), entry, args, Stage::Health)
}

/// A token that is no user's may be a job's.
pub fn on_health_user(
    entry: &Arc<ToolEntry>,
    args: JsonMap,
    url: &str,
    reply: Result<ApiResponse, ApiError>,
) -> (r: Step)
    ensures
        r@ == user_tried(*entry, args.fields(), url@, answer(reply)),
{
    match reply {
        Ok(_) => send(get_plain("/version".to_string()), entry, args, Stage::HealthVersion),
        Err(e) => if e.status == 401 || e.status == 403 {
            send(get_plain("/job".to_string()), entry, args, Stage::HealthJob { error: e.text() })
        } else {
            report_unhealthy(url, e.text())
        },
    }
}

/// The token was tried as a job's.
pub fn on_health_job(
    entry: &Arc<ToolEntry>,
    args: JsonMap,
    url: &str,
    error: String,
    reply: Result<ApiResponse, ApiError>,
) -> (r: Step)
    ensures
        r@ == job_tried(*entry, args.fields(), url@, error@, answer(reply)),
{
    match reply {
        Ok(_) => send(get_plain("/version".to_string()), entry, args, Stage::HealthVersion),
        Err(_) => report_unhealthy(url, error),
    }
}

/// What is known of the instance is reported.
pub fn on_health_version(url: &str, reply: Result<ApiResponse, ApiError>) -> (r: Step)
    ensures
        r@ == version_read(url@, answer(reply)),
{
    let mut out = base_of(true, url);
    if let Ok(resp) = reply {
        put_some(&mut out, "version", resp.body.get("version"));
        put_some(&mut out, "revision", resp.body.get("revision"));
        put_some(&mut out, "enterprise", resp.body.get("enterprise"));
    }
    succeed(Json::Object(out))
}

// -------------------------------------------------------------------- laws

/// A reply to a lookup never fails the call: a miss is a `null`.
pub proof fn law_missing_user_is_null(
    entry: Arc<ToolEntry>,
    args: Args,
    at: int,
    out: Args,
    e: ErrorView,
)
    requires
        arg_items(args, "usernames"@) is Some,
        0 <= at < arg_items(args, "usernames"@)->0.len(),
        arg_items(args, "usernames"@)->0[at].text() is Some,
    ensures
        user_found(entry, args, at, out, Err(e)) == users_from(
            entry,
            args,
            at + 1,
            out.insert(arg_items(args, "usernames"@)->0[at].text()->0, JsonView::Null),
        ),
{
}

/// A health check that ends never fails: it reports what it found.
pub proof fn law_health_is_always_reported(
    entry: Arc<ToolEntry>,
    args: Args,
    url: Seq<char>,
    error: Seq<char>,
    reply: Result<ResponseView, ErrorView>,
)
    ensures
        user_tried(entry, args, url, reply) is Done ==> user_tried(
            entry,
            args,
            url,
            reply,
        )->Done_0 is Ok,
        job_tried(entry, args, url, error, reply) is Done ==> job_tried(
            entry,
            args,
            url,
            error,
            reply,
        )->Done_0 is Ok,
        version_read(url, reply) is Done,
        version_read(url, reply)->Done_0 is Ok,
{
}

} // verus!
