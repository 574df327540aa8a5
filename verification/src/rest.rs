//! REST tools: one call, before which a merge request may have to be found.

use crate::args::{Args, arg_text, required, required_str, text_arg};
use crate::flow::{Stage, StageView, Step, StepView, below_project, fail, failed, get, get_call,
    project_path, send, sent, succeed, succeeded, two_pairs};
use crate::gitlab::{ApiCall, ApiError, ApiResponse, CallView, ErrorView, ResponseView, answer};
use crate::json::{JsonMap, JsonView, views};
use crate::registry::{Endpoint, ToolEntry};
use crate::route::{method_for, parse_method, render_path, rendered, request_body, request_parts,
    route, select_route, split_args};
use crate::shape::{shape, shaped};
use crate::text::{listed, strs};
use crate::unicode::{quote, quoted};
use std::sync::Arc;
use vstd::prelude::*;
use vstd::string::*;

verus! {

/// The branch whose merge request has to be found before the call: the endpoint
/// wants an iid, none is given, but a source branch is.
pub open spec fn branch_wanted(ep: Endpoint, args: Args) -> Option<Seq<char>> {
    if strs(ep.path_params@).contains("merge_request_iid"@) && !args.dom().contains(
        "merge_request_iid"@,
    ) {
        arg_text(args, "source_branch"@)
    } else {
        None
    }
}

/// The call that a REST tool makes once its arguments are complete.
pub open spec fn rest_call(ep: Endpoint, args: Args) -> Result<CallView, Seq<char>> {
    match route(ep, args) {
        Err(e) => Err(e),
        Ok(r) => match method_for(r.method) {
            Err(e) => Err(e),
            Ok(method) => match rendered(r.template, r.params, args) {
                Err(e) => Err(e),
                Ok(path) => {
                    let parts = request_parts(ep, method, r.params, args);
                    Ok(
                        CallView::Rest {
                            method,
                            path,
                            query: parts.query,
                            body: request_body(parts.body),
                        },
                    )
                },
            },
        },
    }
}

/// A REST tool makes its call.
pub open spec fn rest_sent(entry: Arc<ToolEntry>, args: Args) -> StepView {
    match rest_call(*entry.endpoint, args) {
        Err(e) => failed(e),
        Ok(call) => sent(call, entry, args, StageView::Rest),
    }
}

/// A REST tool begins.
pub open spec fn rest_begun(entry: Arc<ToolEntry>, args: Args) -> StepView {
    match branch_wanted(*entry.endpoint, args) {
        None => rest_sent(entry, args),
        Some(branch) => match required(args, "project_id"@) {
            Err(e) => failed(e),
            Ok(project) => sent(
                get_call(
                    project_path(project, "/merge_requests"@),
                    seq![("source_branch"@, branch), ("per_page"@, "1"@)],
                ),
                entry,
                args,
                StageView::Iid,
            ),
        },
    }
}

/// The iid of the first merge request in a list.
pub open spec fn first_iid(body: JsonView) -> Option<JsonView> {
    match body {
        JsonView::Array(list) => if list.len() > 0 {
            list[0].field("iid"@)
        } else {
            None
        },
        _ => None,
    }
}

/// A REST tool goes on with the merge request that was found.
pub open spec fn iid_found(
    entry: Arc<ToolEntry>,
    args: Args,
    reply: Result<ResponseView, ErrorView>,
) -> StepView {
    match reply {
        Err(e) => failed(e.text()),
        Ok(resp) => match first_iid(resp.body) {
            Some(iid) => rest_sent(entry, args.insert("merge_request_iid"@, iid)),
            None => failed(
                "no merge request was found for source branch "@ + quote(
                    match arg_text(args, "source_branch"@) {
                        Some(b) => b,
                        None => ""@,
                    },
                ),
            ),
        },
    }
}

/// A REST tool ends with the reply to its call.
pub open spec fn rest_ended(ep: Endpoint, reply: Result<ResponseView, ErrorView>) -> StepView {
    match reply {
        Err(e) => failed(e.text()),
        Ok(resp) => succeeded(shaped(ep, resp)),
    }
}

/// A REST tool makes its call.
fn make_call(entry: &Arc<ToolEntry>, args: JsonMap) -> (r: Step)
    ensures
        r@ == rest_sent(*entry, args.fields()),
{
    let ep = &entry.endpoint;
    let (method, template, params) = match select_route(ep, &args) {
        Ok(route) => route,
        Err(e) => {
            return fail(e.0);
        },
    };
    let method = match parse_method(method.as_str()) {
        Ok(m) => m,
        Err(e) => {
            return fail(e.0);
        },
    };
    let path = match render_path(template.as_str(), &params, &args) {
        Ok(p) => p,
        Err(e) => {
            return fail(e.0);
        },
    };
    match split_args(ep, method.as_str(), &params, &args) {
        Ok(parts) => send(
            ApiCall::Rest { method, path, query: parts.0, body: parts.1 },
            entry,
            args,
            Stage::Rest,
        ),
        Err(e) => fail(e.0),
    }
}

/// A REST tool begins. Several merge request tools accept a branch name instead of
/// an iid.
pub fn call_rest(entry: &Arc<ToolEntry>, args: JsonMap) -> (r: Step)
    ensures
        r@ == rest_begun(*entry, args.fields()),
{
    if !listed(&entry.endpoint.path_params, "merge_request_iid") || args.has_field(
        "merge_request_iid",
    ) {
        return make_call(entry, args);
    }
    let branch = match text_arg(&args, "source_branch") {
        Some(b) => b.to_string(),
        None => {
            return make_call(entry, args);
        },
    };
    let project = match required_str(&args, "project_id") {
        Ok(p) => p,
        Err(e) => {
            return fail(e.0);
        },
    };
    let path = below_project(project.as_str(), "/merge_requests");
    let query = two_pairs("source_branch", branch.as_str(), "per_page", "1");
    send(get(path, query), entry, args, Stage::Iid)
}

/// A REST tool goes on with the merge request that was found.
pub fn resolve_iid(entry: &Arc<ToolEntry>, args: JsonMap, reply: Result<ApiResponse, ApiError>) -> (r:
    Step)
    ensures
        r@ == iid_found(*entry, args.fields(), answer(reply)),
{
    let resp = match reply {
        Ok(resp) => resp,
        Err(e) => {
            return fail(e.text());
        },
    };
    let iid = match resp.body.as_array() {
        Some(list) => if list.len() > 0 {
            assert(views(list@)[0] == list@[0]@);
            crate::variables::copied(list[0].get("iid"))
        } else {
            None
        },
        None => None,
    };
    match iid {
        Some(iid) => {
            let mut args = args;
            args.put("merge_request_iid", iid);
            make_call(entry, args)
        },
        None => {
            let branch = match text_arg(&args, "source_branch") {
                Some(b) => b,
                None => "",
            };
            fail(
                "no merge request was found for source branch ".to_string().concat(
                    quoted(branch).as_str(),
                ),
            )
        },
    }
}

/// A REST tool ends with the reply to its call.
pub fn end_rest(entry: &Arc<ToolEntry>, reply: Result<ApiResponse, ApiError>) -> (r: Step)
    ensures
        r@ == rest_ended(*entry.endpoint, answer(reply)),
{
    match reply {
        Ok(resp) => succeed(shape(&entry.endpoint, resp)),
        Err(e) => fail(e.text()),
    }
}

} // verus!
