//! Laws of the mathematical values that stand for what goes in and out: nothing that a
//! caller hands over is lost or mixed up in them.

use crate::config::{CliOverrides, Config, ToolsetSelection};
use crate::error::ToolError;
use crate::flow::{Step, StepView, Task, result_seen};
use crate::gitlab::{ApiCall, ApiError, ApiResponse, CallView, HttpReply, HttpRequest, answer,
    pairs_seen};
use crate::json::{Json, JsonMap, JsonView, lookup, seen, views};
use crate::number::number_view;
use crate::pattern::{compiled_from, pattern_matches, regex_matches};
use crate::server::{ToolListing, listings};
use crate::text::{opt_str, strs};
use vstd::prelude::*;
use vstd::string::*;

verus! {

/// An optional text is there just when its characters are; a list of texts is seen one
/// by one.
pub proof fn law_texts_are_seen(s: String, list: Seq<String>, pairs: Seq<(String, String)>, i: int)
    ensures
        opt_str(Some(s)) == Some(s@),
        opt_str(None) is None,
        strs(list).len() == list.len(),
        0 <= i < list.len() ==> strs(list)[i] == list[i]@,
        pairs_seen(pairs).len() == pairs.len(),
        0 <= i < pairs.len() ==> pairs_seen(pairs)[i] == (pairs[i].0@, pairs[i].1@),
{
}

/// Each kind of JSON value is seen as what it is, a list item by item.
pub proof fn law_json_is_seen(
    b: bool,
    n: serde_json::Number,
    s: String,
    items: Vec<Json>,
    m: JsonMap,
    list: Seq<Json>,
    i: int,
)
    ensures
        Json::Null@ == JsonView::Null,
        Json::Bool(b)@ == JsonView::Bool(b),
        Json::Number(n)@ == JsonView::Number(number_view(n)),
        Json::Str(s)@ == JsonView::Str(s@),
        Json::Array(items)@ is Array,
        Json::Array(items)@->Array_0.len() == items@.len(),
        0 <= i < items@.len() ==> Json::Array(items)@->Array_0[i] == items@[i]@,
        Json::Object(m)@ == JsonView::Object(m.fields()),
        views(list).len() == list.len(),
        0 <= i < list.len() ==> views(list)[i] == list[i]@,
{
}

/// A field is found just when there is one of that name.
pub proof fn law_fields_are_found(m: Map<Seq<char>, JsonView>, key: Seq<char>, j: Json)
    ensures
        lookup(m, key) is Some <==> m.dom().contains(key),
        m.dom().contains(key) ==> lookup(m, key)->0 == m[key],
        seen(Some(j)) == Some(j@),
        seen(None::<Json>) is None,
{
}

/// A reply is seen with its status, its pagination headers and its text; so are the
/// response and the error that are made of it.
pub proof fn law_replies_are_seen(reply: HttpReply, resp: ApiResponse, e: ApiError)
    ensures
        reply@.status == reply.status,
        reply@.next_page == opt_str(reply.next_page),
        reply@.total == opt_str(reply.total),
        reply@.next_page_token == opt_str(reply.next_page_token),
        reply.text matches Ok(t) ==> reply@.text == Ok::<Seq<char>, Seq<char>>(t@),
        reply.text matches Err(t) ==> reply@.text == Err::<Seq<char>, Seq<char>>(t@),
        resp@.status == resp.status,
        resp@.body == resp.body@,
        resp@.next_page == opt_str(resp.next_page),
        resp@.total == opt_str(resp.total),
        resp@.next_page_token == opt_str(resp.next_page_token),
        e@.status == e.status,
        e@.message == e.message@,
        answer(Ok(resp)) == Ok::<_, crate::gitlab::ErrorView>(resp@),
        answer(Err(e)) == Err::<crate::gitlab::ResponseView, _>(e@),
{
}

/// A call and a request are seen whole.
pub proof fn law_calls_are_seen(call: ApiCall, request: HttpRequest)
    ensures
        call matches ApiCall::Rest { method, path, query, body } ==> call@ == (CallView::Rest {
            method: method@,
            path: path@,
            query: pairs_seen(query@),
            body: seen(body),
        }),
        call matches ApiCall::Graphql { document, variables } ==> call@ == (CallView::Graphql {
            document: document@,
            variables: variables@,
        }),
        request@.method == request.method@,
        request@.url == request.url@,
        request@.query == pairs_seen(request.query@),
        request@.body == seen(request.body),
{
}

/// What is done next is seen as it is: sent at once, sent after a pause, or done.
pub proof fn law_steps_are_seen(call: ApiCall, task: Task, nanos: u128, j: Json, e: ToolError)
    ensures
        Step::Send(call, task)@ == StepView::Send(call@, task@),
        Step::Sleep(nanos, call, task)@ == StepView::Sleep(nanos as nat, call@, task@),
        Step::Done(Ok(j))@ == StepView::Done(Ok(j@)),
        Step::Done(Err(e))@ == StepView::Done(Err(e.0@)),
        result_seen(Ok(j)) == Ok::<JsonView, Seq<char>>(j@),
        result_seen(Err(e)) == Err::<JsonView, Seq<char>>(e.0@),
        task@.entry == task.entry,
        task@.args == task.args.fields(),
        task@.stage == task.stage@,
{
}

/// The command line and the settings are seen field by field.
pub proof fn law_settings_are_seen(cli: CliOverrides, cfg: Config)
    ensures
        cli@.token == opt_str(cli.token),
        cli@.api_url == opt_str(cli.api_url),
        cli@.toolsets == opt_str(cli.toolsets),
        cli@.read_only == cli.read_only,
        cfg@.api_url == cfg.api_url@,
        cfg@.graphql_url == cfg.graphql_url@,
        cfg@.token == cfg.token@,
        cfg@.auth == cfg.auth,
        cfg@.default_project_id == opt_str(cfg.default_project_id),
        cfg@.read_only == cfg.read_only,
        cfg@.allowed_project_ids == cfg.allowed_project_ids@,
        cfg@.toolsets == cfg.toolsets@,
        cfg@.use_wiki == cfg.use_wiki,
        cfg@.use_milestone == cfg.use_milestone,
        cfg@.use_pipeline == cfg.use_pipeline,
        cfg@.timeout_ms == cfg.timeout_ms,
        cfg@.max_response_bytes == cfg.max_response_bytes,
        cfg@.insecure_tls == cfg.insecure_tls,
        cfg.toolsets is Defaults <==> cfg.toolsets@ is Defaults,
        cfg.toolsets is All <==> cfg.toolsets@ is All,
        cfg.toolsets matches ToolsetSelection::Explicit(ids) ==> cfg.toolsets@->Explicit_0 == ids@,
{
}

/// What is denied is what the pattern of the settings matches, and nothing where there
/// is no pattern.
pub proof fn law_patterns_are_compiled(
    re: Option<regex::Regex>,
    pattern: Option<Seq<char>>,
    text: Seq<char>,
)
    requires
        compiled_from(re, pattern),
    ensures
        re is Some <==> pattern is Some,
        re is Some ==> (regex_matches(re->0, text) <==> pattern_matches(pattern->0, text)),
{
}

/// What the client is told of a tool is seen field by field, of several tools one by one.
pub proof fn law_listings_are_seen(tool: ToolListing, list: Seq<ToolListing>, i: int)
    ensures
        tool@.name == tool.name@,
        tool@.description == tool.description@,
        tool@.input_schema == tool.input_schema.fields(),
        tool@.read_only == tool.read_only,
        tool@.destructive == tool.destructive,
        tool@.idempotent == tool.idempotent,
        tool@.open_world == tool.open_world,
        listings(list).len() == list.len(),
        0 <= i < list.len() ==> listings(list)[i] == list[i]@,
{
}

} // verus!
