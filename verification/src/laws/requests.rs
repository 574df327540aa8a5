//! Laws of REST requests: which route is taken, where every argument goes, and what is
//! made of the reply.

use crate::args::{Args, present};
use crate::encode::{segment, segments};
use crate::exec::Executor;
use crate::flow::{StageView, StepView, TaskView};
use crate::gitlab::{CallView, ErrorView, GitLabClient, ReplyView, RequestView, ResponseView,
    auth_header, error_message, error_text, finished};
use crate::http::{cut, fitting, method_name, reason};
use crate::interop::{json_parse, json_print};
use crate::json::JsonView;
use crate::lists::{field_texts, scalars};
use crate::number::NumberView;
use crate::registry::{Endpoint, Registry, ToolEntry};
use crate::rest::{rest_begun, rest_sent};
use crate::route::{RouteView, bracketed, law_arguments_go_one_way, parts, query_pairs, queried,
    rendered, request_body, request_parts, route, variant_from};
use crate::search::{occurs, replace_all};
use crate::shape::{descend, failure_in, mutation_failure, redacted, shaped};
use crate::strmap::in_order;
use crate::text::{decimal, join, opt_str, strs, trim};
use crate::unicode::quote;
use std::sync::Arc;
use vstd::prelude::*;
use vstd::string::*;
use vstd::utf8::encode_utf8;

verus! {

// ------------------------------------------------------------------ routes

/// An endpoint without variants has the one route that it names.
pub proof fn law_plain_route(ep: Endpoint, args: Args)
    requires
        ep.path_variants@.len() == 0,
    ensures
        ep.method is Some && ep.path is Some ==> route(ep, args) == Ok::<RouteView, Seq<char>>(
            RouteView {
                method: ep.method->0@,
                template: ep.path->0@,
                params: strs(ep.path_params@),
            },
        ),
        ep.method is None || ep.path is None ==> route(ep, args) == Err::<RouteView, Seq<char>>(
            "this tool has no REST route"@,
        ),
{
}

/// Whether the arguments meet the condition of a variant.
pub open spec fn met(ep: Endpoint, args: Args, i: int) -> bool {
    present(args, ep.path_variants@[i].when.param@) == ep.path_variants@[i].when.present
}

proof fn lemma_first_met(ep: Endpoint, args: Args, from: int, i: int)
    requires
        0 <= from <= i <= ep.path_variants@.len(),
        forall|j: int| from <= j < i ==> !#[trigger] met(ep, args, j),
        i < ep.path_variants@.len() ==> met(ep, args, i),
    ensures
        variant_from(ep.path_variants@, args, from) == (if i < ep.path_variants@.len() {
            Some(i)
        } else {
            None
        }),
    decreases i - from,
{
    if from < i {
        assert(!met(ep, args, from));
        lemma_first_met(ep, args, from + 1, i);
    }
}

/// The first variant whose condition is met is the route. Its method is its own, else
/// that of the endpoint, else `GET`.
pub proof fn law_first_variant_that_is_met(ep: Endpoint, args: Args, i: int)
    requires
        0 <= i < ep.path_variants@.len(),
        met(ep, args, i),
        forall|j: int| 0 <= j < i ==> !#[trigger] met(ep, args, j),
    ensures
        ({
            let v = ep.path_variants@[i];
            &&& route(ep, args) is Ok
            &&& route(ep, args)->Ok_0.template == v.path@
            &&& route(ep, args)->Ok_0.params == strs(v.path_params@)
            &&& v.method is Some ==> route(ep, args)->Ok_0.method == v.method->0@
            &&& v.method is None && ep.method is Some ==> route(ep, args)->Ok_0.method
                == ep.method->0@
            &&& v.method is None && ep.method is None ==> route(ep, args)->Ok_0.method == "GET"@
        }),
{
    lemma_first_met(ep, args, 0, i);
}

/// Where no variant's condition is met there is no route.
pub proof fn law_no_variant_is_met(ep: Endpoint, args: Args)
    requires
        ep.path_variants@.len() > 0,
        forall|j: int| 0 <= j < ep.path_variants@.len() ==> !#[trigger] met(ep, args, j),
    ensures
        route(ep, args) == Err::<RouteView, Seq<char>>(
            "no path variant matched the supplied arguments"@,
        ),
{
    lemma_first_met(ep, args, 0, ep.path_variants@.len() as int);
}

// ------------------------------------------------------------------- paths

/// A parameter takes the place of its name in braces, wherever that stands, encoded as
/// one segment; only `direct_asset_path` keeps its slashes. One that is missing is
/// named.
pub proof fn law_path_parameters(
    path: Seq<char>,
    name: Seq<char>,
    rest: Seq<Seq<char>>,
    args: Args,
)
    ensures
        ({
            let all = rendered(path, seq![name] + rest, args);
            &&& args.dom().contains(name) && args[name].scalar() is Some && name
                != "direct_asset_path"@ ==> all == rendered(
                replace_all(path, "{"@ + name + "}"@, segment(args[name].scalar()->0)),
                rest,
                args,
            )
            &&& args.dom().contains(name) && args[name].scalar() is Some && name
                == "direct_asset_path"@ ==> all == rendered(
                replace_all(path, "{"@ + name + "}"@, segments(args[name].scalar()->0)),
                rest,
                args,
            )
            &&& !args.dom().contains(name) || args[name].scalar() is None ==> all == Err::<
                Seq<char>,
                Seq<char>,
            >(name + " is required"@)
        }),
{
    assert((seq![name] + rest)[0] == name);
    assert((seq![name] + rest).skip(1) =~= rest);
}

/// A path is complete when no brace is left in it.
pub proof fn law_complete_paths(path: Seq<char>, args: Args)
    ensures
        !path.contains('{') ==> rendered(path, Seq::<Seq<char>>::empty(), args) == Ok::<
            Seq<char>,
            Seq<char>,
        >(path),
        path.contains('{') ==> rendered(path, Seq::<Seq<char>>::empty(), args) == Err::<
            Seq<char>,
            Seq<char>,
        >("path "@ + path + " still has unfilled parameters"@),
{
    reveal_strlit("{");
    assert("{"@ =~= seq!['{']);
    if occurs(path, "{"@) {
        let i = choose|i: int| crate::search::occurs_at(path, "{"@, i);
        assert(path.subrange(i, i + 1)[0] == '{');
        assert(path[i] == '{');
    }
    if path.contains('{') {
        let i = choose|i: int| 0 <= i < path.len() && path[i] == '{';
        assert(path.subrange(i, i + 1) =~= "{"@);
        assert(crate::search::occurs_at(path, "{"@, i));
    }
}

// --------------------------------------------------------------- arguments

/// Whether a method carries its arguments in a body.
pub open spec fn writing(method: Seq<char>) -> bool {
    method == "POST"@ || method == "PUT"@ || method == "PATCH"@
}

/// Every argument is sent that is not in the path, is not `full_response` and is not
/// `null`, with `false`, zero and the empty string among them. In a writing request it
/// is in the body, under its name and unchanged, unless the endpoint wants it in the
/// query string. Otherwise it is in the query string: a scalar by its text.
pub proof fn law_arguments_are_sent(
    ep: Endpoint,
    method: Seq<char>,
    params: Seq<Seq<char>>,
    args: Args,
    key: Seq<char>,
)
    requires
        args.dom().finite(),
        args.dom().contains(key),
        !params.contains(key),
        key != "full_response"@,
        !(args[key] is Null),
    ensures
        ({
            let sent = request_parts(ep, method, params, args);
            let in_body = writing(method) && !strs(ep.query_params@).contains(key);
            &&& in_body ==> {
                &&& sent.body.dom().contains(key)
                &&& sent.body[key] == args[key]
                &&& request_body(sent.body) == Some(JsonView::Object(sent.body))
            }
            &&& !in_body ==> !sent.body.dom().contains(key)
            &&& !in_body && args[key].scalar() is Some ==> sent.query.contains(
                (key, args[key].scalar()->0),
            )
            &&& !in_body ==> (args[key] matches JsonView::Array(items) ==> scalars(items).len() > 0
                ==> sent.query.contains((key, join(scalars(items), ","@))))
        }),
{
    law_arguments_go_one_way(ep, method, params, args);
    let sent = request_parts(ep, method, params, args);
    let in_body = writing(method) && !strs(ep.query_params@).contains(key);
    if in_body {
        assert(sent.body.dom().contains(key));
        assert(sent.body != Map::<Seq<char>, JsonView>::empty());
    } else {
        if args[key].scalar() is Some {
            let pair = (key, args[key].scalar()->0);
            assert(query_pairs(key, args[key])[0] == pair);
            assert(queried(pair, key, args[key], params));
        }
        if let JsonView::Array(items) = args[key] {
            if scalars(items).len() > 0 {
                let pair = (key, join(scalars(items), ","@));
                assert(query_pairs(key, args[key])[0] == pair);
                assert(queried(pair, key, args[key], params));
            }
        }
    }
}

/// Nothing else is sent: what is in the body is an argument, and neither one of the
/// path, nor `full_response`, nor `null`, nor one that belongs in the query string. A
/// request that does not write has no body, and neither has one with nothing to put
/// into it.
pub proof fn law_nothing_else_is_sent(
    ep: Endpoint,
    method: Seq<char>,
    params: Seq<Seq<char>>,
    args: Args,
    key: Seq<char>,
)
    requires
        args.dom().finite(),
        request_parts(ep, method, params, args).body.dom().contains(key),
    ensures
        args.dom().contains(key),
        !params.contains(key),
        key != "full_response"@,
        !(args[key] is Null),
        writing(method),
        !strs(ep.query_params@).contains(key),
        request_body(Map::<Seq<char>, JsonView>::empty()) is None,
{
    law_arguments_go_one_way(ep, method, params, args);
}

/// The query string and the body are put together argument by argument, in the order of
/// the names.
pub proof fn law_arguments_in_order(
    ep: Endpoint,
    method: Seq<char>,
    params: Seq<Seq<char>>,
    args: Args,
    names: Seq<Seq<char>>,
    key: Seq<char>,
)
    ensures
        ({
            let forced = strs(ep.query_params@);
            let head = parts(forced, writing(method), params, args, names);
            let more = parts(forced, writing(method), params, args, names.push(key));
            let none = parts(forced, writing(method), params, args, Seq::<Seq<char>>::empty());
            &&& request_parts(ep, method, params, args) == parts(
                forced,
                writing(method),
                params,
                args,
                in_order(args.dom()),
            )
            &&& none.query.len() == 0
            &&& none.body == Map::<Seq<char>, JsonView>::empty()
            &&& params.contains(key) || key == "full_response"@ || args[key] is Null ==> more
                == head
            &&& !params.contains(key) && key != "full_response"@ && !(args[key] is Null) && writing(
                method,
            ) && !forced.contains(key) ==> more.query == head.query && more.body
                == head.body.insert(key, args[key])
            &&& !params.contains(key) && key != "full_response"@ && !(args[key] is Null) && (
            !writing(method) || forced.contains(key)) ==> more.query == head.query + query_pairs(
                key,
                args[key],
            ) && more.body == head.body
        }),
{
    assert(names.push(key).drop_last() =~= names);
    assert(names.push(key).last() == key);
}

/// In a query string a scalar is one pair, a list is one pair joined by commas, and the
/// fields of an object are pairs under a bracketed name; what has no text is left out.
pub proof fn law_query_strings(
    key: Seq<char>,
    value: JsonView,
    fields: Map<Seq<char>, JsonView>,
    names: Seq<Seq<char>>,
    name: Seq<char>,
)
    ensures
        value.scalar() matches Some(s) ==> query_pairs(key, value) == seq![(key, s)],
        value is Null ==> query_pairs(key, value).len() == 0,
        value matches JsonView::Array(items) ==> {
            &&& scalars(items).len() > 0 ==> query_pairs(key, value) == seq![
                (key, join(scalars(items), ","@)),
            ]
            &&& scalars(items).len() == 0 ==> query_pairs(key, value).len() == 0
        },
        value matches JsonView::Object(m) ==> query_pairs(key, value) == bracketed(
            key,
            m,
            in_order(m.dom()),
        ),
        bracketed(key, fields, Seq::<Seq<char>>::empty()).len() == 0,
        fields[name].scalar() matches Some(s) ==> bracketed(key, fields, names.push(name))
            == bracketed(key, fields, names).push((key + "["@ + name + "]"@, s)),
        fields[name].scalar() is None ==> bracketed(key, fields, names.push(name)) == bracketed(
            key,
            fields,
            names,
        ),
{
    assert(names.push(name).drop_last() =~= names);
    assert(names.push(name).last() == name);
}

// -------------------------------------------------------------- REST tools

/// A REST tool makes one call, with the method, the path, the query string and the body
/// that its route and its arguments give; where one of them cannot be had, it fails and
/// sends nothing.
pub proof fn law_rest_calls(entry: Arc<ToolEntry>, args: Args)
    ensures
        ({
            let ep = *entry.endpoint;
            match route(ep, args) {
                Err(e) => rest_sent(entry, args) == StepView::Done(Err(e)),
                Ok(r) => if !method_name(r.method) {
                    rest_sent(entry, args) == StepView::Done(
                        Err("unsupported HTTP method "@ + r.method),
                    )
                } else {
                    match rendered(r.template, r.params, args) {
                        Err(e) => rest_sent(entry, args) == StepView::Done(Err(e)),
                        Ok(path) => {
                            let sent = request_parts(ep, r.method, r.params, args);
                            rest_sent(entry, args) == StepView::Send(
                                CallView::Rest {
                                    method: r.method,
                                    path,
                                    query: sent.query,
                                    body: request_body(sent.body),
                                },
                                TaskView { entry, args, stage: StageView::Rest },
                            )
                        },
                    }
                },
            }
        }),
{
}

/// Where a merge request is wanted and a branch is given instead, the newest merge
/// request of the branch is asked for, and then stands in for it.
pub proof fn law_branches_stand_for_merge_requests(
    executor: Executor,
    reg: Registry,
    entry: Arc<ToolEntry>,
    args: Args,
    resp: ResponseView,
    now: nat,
)
    ensures
        ({
            let wanted = strs(entry.endpoint.path_params@).contains("merge_request_iid"@)
                && !args.dom().contains("merge_request_iid"@) && args.dom().contains(
                "source_branch"@,
            ) && args["source_branch"@] is Str;
            let task = TaskView { entry, args, stage: StageView::Iid };
            let next = executor.resumed(reg, task, Ok(resp), now);
            &&& !wanted ==> rest_begun(entry, args) == rest_sent(entry, args)
            &&& wanted && args.dom().contains("project_id"@) && args["project_id"@].scalar() is Some
                ==> rest_begun(entry, args) == StepView::Send(
                CallView::Rest {
                    method: "GET"@,
                    path: "/projects/"@ + segment(args["project_id"@].scalar()->0)
                        + "/merge_requests"@,
                    query: seq![
                        ("source_branch"@, args["source_branch"@]->Str_0),
                        ("per_page"@, "1"@),
                    ],
                    body: None,
                },
                task,
            )
            &&& resp.body matches JsonView::Array(list) ==> list.len() > 0 ==> (
            list[0] matches JsonView::Object(m) ==> m.dom().contains("iid"@) ==> next == rest_sent(
                entry,
                args.insert("merge_request_iid"@, m["iid"@]),
            ))
            &&& resp.body matches JsonView::Array(list) ==> list.len() == 0 && args.dom().contains(
                "source_branch"@,
            ) && args["source_branch"@] is Str ==> next == StepView::Done(
                Err(
                    "no merge request was found for source branch "@ + quote(
                        args["source_branch"@]->Str_0,
                    ),
                ),
            )
        }),
{
}

/// The result of a REST tool is the body of the reply, shaped; an error is told by its
/// text.
pub proof fn law_rest_results(
    executor: Executor,
    reg: Registry,
    entry: Arc<ToolEntry>,
    args: Args,
    reply: Result<ResponseView, ErrorView>,
    now: nat,
)
    ensures
        ({
            let task = TaskView { entry, args, stage: StageView::Rest };
            let next = executor.resumed(reg, task, reply, now);
            match reply {
                Ok(resp) => next == StepView::Done(Ok(shaped(*entry.endpoint, resp))),
                Err(e) => next == StepView::Done(
                    Err(error_text(e.status, reason(e.status), e.message)),
                ),
            }
        }),
{
}

// ----------------------------------------------------------------- results

/// An object loses the fields that are not to be seen, and keeps every other one as it
/// is; a list is gone through item by item; anything else stays.
pub proof fn law_redaction(v: JsonView, fields: Set<Seq<char>>, key: Seq<char>, i: int)
    ensures
        v matches JsonView::Object(m) ==> redacted(v, fields) is Object && {
            let out = redacted(v, fields)->Object_0;
            &&& out.dom().contains(key) <==> m.dom().contains(key) && !fields.contains(key)
            &&& out.dom().contains(key) ==> out[key] == m[key]
        },
        v matches JsonView::Array(items) ==> redacted(v, fields) is Array && {
            let out = redacted(v, fields)->Array_0;
            &&& out.len() == items.len()
            &&& 0 <= i < items.len() ==> out[i] == redacted(items[i], fields)
        },
        !(v is Object) && !(v is Array) ==> redacted(v, fields) == v,
{
}

/// A header as JSON: its text, or `null`.
pub open spec fn header(h: Option<Seq<char>>) -> JsonView {
    match h {
        Some(t) => JsonView::Str(t),
        None => JsonView::Null,
    }
}

/// A list response shows the page that follows it where the endpoint asks for that: by
/// number, or by a token. Secrets are gone either way.
pub proof fn law_shaped_results(ep: Endpoint, resp: ResponseView)
    ensures
        ({
            let items = redacted(resp.body, strs(ep.redact@).to_set());
            let out = shaped(ep, resp);
            &&& opt_str(ep.wrap) == Some("pagination"@) ==> out is Object && {
                let m = out->Object_0;
                &&& m.dom() == set!["items"@, "pagination"@]
                &&& m["items"@] == items
                &&& m["pagination"@] is Object
                &&& m["pagination"@]->Object_0.dom() == set!["next_page"@, "total"@]
                &&& m["pagination"@]->Object_0["next_page"@] == header(resp.next_page)
                &&& m["pagination"@]->Object_0["total"@] == header(resp.total)
            }
            &&& opt_str(ep.wrap) == Some("keyset"@) ==> out is Object && {
                let m = out->Object_0;
                &&& m.dom() == set!["items"@, "next_page_token"@, "pagination_note"@]
                &&& m["items"@] == items
                &&& m["next_page_token"@] == (if resp.next_page_token is Some {
                    header(resp.next_page_token)
                } else {
                    header(resp.next_page)
                })
                &&& m["pagination_note"@] == JsonView::Str(
                    "pass the token back as page_token to continue"@,
                )
            }
            &&& opt_str(ep.wrap) != Some("pagination"@) && opt_str(ep.wrap) != Some("keyset"@)
                ==> out == items
        }),
{
    reveal_strlit("pagination");
    reveal_strlit("keyset");
    reveal_strlit("items");
    reveal_strlit("next_page");
    reveal_strlit("total");
    reveal_strlit("next_page_token");
    reveal_strlit("pagination_note");
    assert("pagination"@.len() == 10 && "keyset"@.len() == 6 && "items"@.len() == 5);
    assert("next_page"@.len() == 9 && "total"@.len() == 5 && "next_page_token"@.len() == 15);
    assert("pagination_note"@.len() == 15);
    assert("next_page_token"@[0] == 'n' && "pagination_note"@[0] == 'p');
    let out = shaped(ep, resp);
    if opt_str(ep.wrap) == Some("pagination"@) {
        assert(out->Object_0.dom() =~= set!["items"@, "pagination"@]);
        assert(out->Object_0["pagination"@]->Object_0.dom() =~= set!["next_page"@, "total"@]);
    } else if opt_str(ep.wrap) == Some("keyset"@) {
        assert(out->Object_0.dom() =~= set!["items"@, "next_page_token"@, "pagination_note"@]);
    }
}

/// A path into a value is followed as far as it leads.
pub proof fn law_result_paths(v: JsonView, key: Seq<char>, rest: Seq<Seq<char>>)
    ensures
        descend(v, Seq::<Seq<char>>::empty()) == v,
        v matches JsonView::Object(m) ==> {
            &&& m.dom().contains(key) ==> descend(v, seq![key] + rest) == descend(m[key], rest)
            &&& !m.dom().contains(key) ==> descend(v, seq![key] + rest) == v
        },
        !(v is Object) ==> descend(v, seq![key] + rest) == v,
{
    assert((seq![key] + rest)[0] == key);
    assert((seq![key] + rest).skip(1) =~= rest);
}

/// The errors that a payload reports, as text.
pub open spec fn reported(payload: JsonView) -> Seq<Seq<char>> {
    match payload {
        JsonView::Object(m) => if m.dom().contains("errors"@) {
            match m["errors"@] {
                JsonView::Array(errors) => scalars(errors),
                _ => seq![],
            }
        } else {
            seq![]
        },
        _ => seq![],
    }
}

proof fn lemma_no_failure(data: Map<Seq<char>, JsonView>, names: Seq<Seq<char>>, i: int)
    requires
        0 <= i <= names.len(),
        forall|j: int| 0 <= j < i ==> reported(data[#[trigger] names[j]]).len() == 0,
        i < names.len() ==> reported(data[names[i]]).len() > 0,
    ensures
        failure_in(data, names) == (if i < names.len() {
            Some(names[i] + " failed: "@ + join(reported(data[names[i]]), ", "@))
        } else {
            None
        }),
    decreases i,
{
    if i > 0 {
        let rest = names.skip(1);
        assert(reported(data[names[0]]).len() == 0);
        assert forall|j: int| 0 <= j < i - 1 implies reported(data[#[trigger] rest[j]]).len()
            == 0 by {
            assert(rest[j] == names[j + 1]);
        }
        if i < names.len() {
            assert(rest[i - 1] == names[i]);
        }
        lemma_no_failure(data, rest, i - 1);
    }
}

/// A mutation that reports errors in its payload has failed: the first such field is
/// named, with all of its errors. One that reports none has not.
pub proof fn law_mutation_failures(body: JsonView, data: Map<Seq<char>, JsonView>, i: int)
    requires
        body matches JsonView::Object(m) && m.dom().contains("data"@) && m["data"@]
            == JsonView::Object(data),
        0 <= i <= in_order(data.dom()).len(),
        forall|j: int|
            0 <= j < i ==> reported(data[#[trigger] in_order(data.dom())[j]]).len() == 0,
        i < in_order(data.dom()).len() ==> reported(data[in_order(data.dom())[i]]).len() > 0,
    ensures
        i < in_order(data.dom()).len() ==> mutation_failure(body) == Some(
            in_order(data.dom())[i] + " failed: "@ + join(
                reported(data[in_order(data.dom())[i]]),
                ", "@,
            ),
        ),
        i == in_order(data.dom()).len() ==> mutation_failure(body) is None,
{
    lemma_no_failure(data, in_order(data.dom()), i);
}

/// A response without data reports no failed mutation.
pub proof fn law_no_data_no_failure(body: JsonView)
    requires
        !(body is Object) || !body->Object_0.dom().contains("data"@) || !(
        body->Object_0["data"@] is Object),
    ensures
        mutation_failure(body) is None,
{
}

// ----------------------------------------------------------------- replies

/// An error says which status GitLab answered with, and GitLab's own message.
pub proof fn law_error_texts(status: u16, words: Seq<char>, message: Seq<char>)
    ensures
        error_text(status, Some(words), message) == "GitLab "@ + decimal(status as nat) + " "@
            + words + ": "@ + message,
        error_text(status, None, message) == "GitLab "@ + decimal(status as nat)
            + " <unknown status code>: "@ + message,
        (ErrorView { status, message }).text() == error_text(status, reason(status), message),
{
    reveal_strlit(" ");
    reveal_strlit("<unknown status code>");
    reveal_strlit(": ");
    reveal_strlit(" <unknown status code>: ");
    let a = "GitLab "@ + decimal(status as nat);
    assert(" "@ + "<unknown status code>"@ + ": "@ =~= " <unknown status code>: "@);
    assert(a + " "@ + "<unknown status code>"@ + ": "@ + message =~= a + (" "@
        + "<unknown status code>"@ + ": "@) + message);
}

/// Whether a field of an error body holds a message.
pub open spec fn speaks(v: JsonView, key: Seq<char>) -> bool {
    v matches JsonView::Object(m) && m.dom().contains(key) && (m[key] is Str || m[key] is Object
        || m[key] is Array)
}

/// What a field of an error body says: a string its text, a map of field errors or a
/// list itself, as JSON.
pub open spec fn spoken(v: JsonView, key: Seq<char>) -> Seq<char> {
    match v->Object_0[key] {
        JsonView::Str(s) => s,
        other => json_print(other),
    }
}

/// The message of an error is in its `message`, else in its `error`, else in its
/// `error_description`. A body that has none of these is the message itself, cut to two
/// thousand bytes, and where it holds nothing the status says what happened.
pub proof fn law_error_messages(text: Seq<char>, status: u16)
    ensures
        json_parse(text) matches Some(v) ==> {
            &&& speaks(v, "message"@) ==> error_message(text, status) == spoken(v, "message"@)
            &&& !speaks(v, "message"@) && speaks(v, "error"@) ==> error_message(text, status)
                == spoken(v, "error"@)
            &&& !speaks(v, "message"@) && !speaks(v, "error"@) && speaks(v, "error_description"@)
                ==> error_message(text, status) == spoken(v, "error_description"@)
        },
        json_parse(text) is None || (!speaks(json_parse(text)->0, "message"@) && !speaks(
            json_parse(text)->0,
            "error"@,
        ) && !speaks(json_parse(text)->0, "error_description"@)) ==> {
            &&& trim(text).len() > 0 ==> error_message(text, status) == cut(text, 2000)
            &&& trim(text).len() == 0 && reason(status) is Some ==> error_message(text, status)
                == reason(status)->0
            &&& trim(text).len() == 0 && reason(status) is None ==> error_message(text, status)
                == "request failed"@
        },
{
}

/// A text that fits is kept whole; one that does not is cut to a beginning that fits,
/// and says that it was cut.
pub proof fn law_cut_texts(s: Seq<char>, max: nat)
    ensures
        encode_utf8(s).len() <= max ==> cut(s, max) == s,
        encode_utf8(s).len() > max ==> {
            &&& cut(s, max) == fitting(s, max) + "\n… [truncated]"@
            &&& fitting(s, max).is_prefix_of(s)
            &&& encode_utf8(fitting(s, max)).len() <= max
            &&& fitting(s, max).len() < s.len() ==> encode_utf8(
                s.take(fitting(s, max).len() as int + 1),
            ).len() > max
        },
{
    crate::http::law_cut_keeps_a_longest_beginning(s, max);
}

/// A header that says something.
pub open spec fn said(h: Option<Seq<char>>) -> Option<Seq<char>> {
    if h is Some && h->0.len() == 0 {
        None
    } else {
        h
    }
}

/// A reply with a status from 200 to 299 is a success: its body is what its text says as
/// JSON, a text that is no JSON is kept as far as it fits, and where there is none the
/// result says so. Any other status is an error that carries GitLab's message.
pub proof fn law_replies(reply: ReplyView, max: nat, text: Seq<char>)
    requires
        reply.text == Ok::<Seq<char>, Seq<char>>(text),
    ensures
        200 <= reply.status <= 299 ==> finished(reply, max) is Ok && {
            let resp = finished(reply, max)->Ok_0;
            &&& resp.status == reply.status
            &&& resp.next_page == said(reply.next_page)
            &&& resp.total == said(reply.total)
            &&& resp.next_page_token == said(reply.next_page_token)
            &&& trim(text).len() > 0 && json_parse(text) is Some ==> resp.body == json_parse(
                text,
            )->0
            &&& trim(text).len() > 0 && json_parse(text) is None ==> resp.body == JsonView::Str(
                cut(text, max),
            )
            &&& trim(text).len() == 0 ==> resp.body is Object && {
                let m = resp.body->Object_0;
                &&& m.dom() == set!["success"@, "status"@]
                &&& m["success"@] == JsonView::Bool(true)
                &&& m["status"@] == JsonView::Number(NumberView::Unsigned(reply.status as u64))
            }
        },
        !(200 <= reply.status <= 299) ==> finished(reply, max) == Err::<ResponseView, ErrorView>(
            ErrorView { status: reply.status, message: error_message(text, reply.status) },
        ),
{
    reveal_strlit("success");
    reveal_strlit("status");
    assert("success"@.len() == 7 && "status"@.len() == 6);
    if 200 <= reply.status <= 299 && trim(text).len() == 0 {
        assert(finished(reply, max)->Ok_0.body->Object_0.dom() =~= set!["success"@, "status"@]);
    }
}

/// A body that could not be read is an error, and so is a request that got no reply.
pub proof fn law_no_reply(
    client: GitLabClient,
    call: CallView,
    reply: ReplyView,
    problem: Seq<char>,
    max: nat,
)
    ensures
        reply.text == Err::<Seq<char>, Seq<char>>(problem) ==> finished(reply, max) == Err::<
            ResponseView,
            ErrorView,
        >(
            ErrorView {
                status: reply.status,
                message: "could not read the response body: "@ + problem,
            },
        ),
        call matches CallView::Rest { path, .. } ==> client.answer_to(call, Err(problem)) == Err::<
            ResponseView,
            ErrorView,
        >(
            ErrorView {
                status: 502,
                message: "request to "@ + (client.rest_base() + path) + " failed: "@ + problem,
            },
        ),
        call is Graphql ==> client.answer_to(call, Err(problem)) == Err::<ResponseView, ErrorView>(
            ErrorView { status: 502, message: "GraphQL request failed: "@ + problem },
        ),
        call is Rest ==> client.answer_to(call, Ok(reply)) == finished(
            reply,
            client.limit() as nat,
        ),
{
}

/// A GraphQL reply that reports errors is an error, with all of their messages, however
/// good its status; errors without a message are shown as they are.
pub proof fn law_graphql_errors(
    client: GitLabClient,
    document: Seq<char>,
    variables: JsonView,
    reply: ReplyView,
)
    ensures
        ({
            let call = CallView::Graphql { document, variables };
            let plain = finished(reply, client.limit() as nat);
            let result = client.answer_to(call, Ok(reply));
            match plain {
                Err(e) => result == Err::<ResponseView, ErrorView>(e),
                Ok(resp) => {
                    let failing = resp.body matches JsonView::Object(m) && m.dom().contains(
                        "errors"@,
                    ) && (m["errors"@] matches JsonView::Array(list) && list.len() > 0);
                    &&& !failing ==> result == Ok::<ResponseView, ErrorView>(resp)
                    &&& failing ==> {
                        let list = resp.body->Object_0["errors"@]->Array_0;
                        let words = join(field_texts(list, "message"@), "; "@);
                        &&& words.len() > 0 ==> result == Err::<ResponseView, ErrorView>(
                            ErrorView { status: 400, message: words },
                        )
                        &&& words.len() == 0 ==> result == Err::<ResponseView, ErrorView>(
                            ErrorView { status: 400, message: json_print(JsonView::Array(list)) },
                        )
                    }
                },
            }
        }),
{
}

// ---------------------------------------------------------------- requests

/// A REST call goes to its path below the REST base, as it is. A GraphQL call is posted
/// to the GraphQL endpoint, with the document and its variables.
pub proof fn law_requests(
    client: GitLabClient,
    method: Seq<char>,
    path: Seq<char>,
    query: Seq<(Seq<char>, Seq<char>)>,
    body: Option<JsonView>,
    document: Seq<char>,
    variables: JsonView,
)
    ensures
        client.request_for(CallView::Rest { method, path, query, body }) == (RequestView {
            method,
            url: client.rest_base() + path,
            query,
            body,
        }),
        ({
            let r = client.request_for(CallView::Graphql { document, variables });
            &&& r.method == "POST"@
            &&& r.url == client.graphql_base()
            &&& r.query.len() == 0
            &&& r.body is Some
            &&& r.body->0 is Object
            &&& r.body->0->Object_0.dom() == set!["query"@, "variables"@]
            &&& r.body->0->Object_0["query"@] == JsonView::Str(document)
            &&& r.body->0->Object_0["variables"@] == variables
        }),
{
    reveal_strlit("query");
    reveal_strlit("variables");
    assert("query"@.len() == 5 && "variables"@.len() == 9);
    let r = client.request_for(CallView::Graphql { document, variables });
    assert(r.body->0->Object_0.dom() =~= set!["query"@, "variables"@]);
}

/// A private token goes in a header of its own, a bearer token in `Authorization`.
pub proof fn law_token_headers(token: Seq<char>)
    ensures
        auth_header(crate::config::AuthKind::PrivateToken, token) == ("PRIVATE-TOKEN"@, token),
        auth_header(crate::config::AuthKind::Bearer, token) == ("Authorization"@, "Bearer "@
            + token),
{
}

} // verus!
