//! GraphQL tools: the ids that a document needs are looked up first.

use crate::args::{Args, arg_scalar, arg_text, scalar_arg, text_arg};
use crate::encode::{enc, segment};
use crate::flow::{Stage, StageView, Step, StepView, body_call, call_with, fail, fail_with, failed,
    send, sent, succeed, succeeded};
use crate::gitlab::{ApiCall, ApiError, ApiResponse, CallView, ErrorView, ResponseView, answer};
use crate::json::{Json, JsonMap, JsonView, lookup, seen, views};
use crate::lists::{field_texts, field_texts_of, text_at, text_field};
use crate::registry::{Endpoint, PreStep, Registry, ToolEntry, VariableSource};
use crate::route::{method_for, parse_method, placeholder};
use crate::search::{replace_all, replaced_all};
use crate::shape::{check_mutation_errors, descend, mutation_failure, unwrap_path};
use crate::strmap::{StrMap, in_order, lemma_map_of_finite, lemma_set_in_order};
use crate::text::{all_digits, ascii_lower, is_all_digits, join, joined, listed, opt_str, same,
    same_ignoring_case, strs};
use crate::unicode::{quote, quoted};
use crate::variables::{build_variables, variables, work_item_gid, work_item_type_gid};
use std::sync::Arc;
use vstd::prelude::*;
use vstd::string::*;

verus! {

// ----------------------------------------------------------------- lookups

/// The arguments whose full path has to be known: that of the lookup itself and
/// those that a variable takes the full path of.
pub open spec fn targets_with(
    first: Seq<char>,
    sources: Map<Seq<char>, VariableSource>,
    names: Seq<Seq<char>>,
) -> Seq<Seq<char>>
    decreases names.len(),
{
    if names.len() == 0 {
        seq![first]
    } else {
        let head = targets_with(first, sources, names.drop_last());
        let src = sources[names.last()];
        if opt_str(src.transform) == Some("resolved_full_path"@) && src.from is Some
            && !head.contains(src.from->0@) {
            head.push(src.from->0@)
        } else {
            head
        }
    }
}

/// The arguments that an endpoint looks up.
pub open spec fn targets(ep: Endpoint) -> Seq<Seq<char>> {
    match ep.pre_step {
        None => seq![],
        Some(step) => targets_with(step.arg@, ep.variables@, in_order(ep.variables@.dom())),
    }
}

/// Whether a value has to be looked up: always, unless only numbers are.
pub open spec fn needs_lookup(step: PreStep, raw: Seq<char>) -> bool {
    opt_str(step.when) == Some("numeric"@) ==> all_digits(raw)
}

/// The path of a lookup.
pub open spec fn lookup_path(step: PreStep, raw: Seq<char>) -> Seq<char> {
    replace_all(step.path@, placeholder(step.arg@), segment(raw))
}

/// A GraphQL tool goes on with the lookups from one of its targets on.
pub open spec fn lookups_from(
    entry: Arc<ToolEntry>,
    args: Args,
    resolved: Args,
    at: int,
) -> StepView
    decreases targets(*entry.endpoint).len() - at,
{
    let all = targets(*entry.endpoint);
    if at < 0 || at >= all.len() {
        lookups_done(entry, args, resolved)
    } else {
        let step = entry.endpoint.pre_step->0;
        match arg_scalar(args, all[at]) {
            None => lookups_from(entry, args, resolved, at + 1),
            Some(raw) => if needs_lookup(step, raw) {
                match method_for(step.method@) {
                    Err(e) => failed(e),
                    Ok(method) => sent(
                        body_call(method, lookup_path(step, raw), None),
                        entry,
                        args,
                        StageView::Lookup { resolved, at, path: lookup_path(step, raw) },
                    ),
                }
            } else {
                lookups_from(entry, args, resolved.insert(all[at], JsonView::Str(raw)), at + 1)
            },
        }
    }
}

/// A GraphQL tool goes on with what the lookup for one of its targets found.
pub open spec fn looked_up(
    entry: Arc<ToolEntry>,
    args: Args,
    resolved: Args,
    at: int,
    path: Seq<char>,
    reply: Result<ResponseView, ErrorView>,
) -> StepView {
    match reply {
        Err(e) => failed(e.text()),
        Ok(resp) => if at < 0 || at >= targets(*entry.endpoint).len() {
            lookups_done(entry, args, resolved)
        } else {
            let field = entry.endpoint.pre_step->0.field@;
            match text_field(resp.body, field) {
                Some(v) => lookups_from(
                    entry,
                    args,
                    resolved.insert(targets(*entry.endpoint)[at], JsonView::Str(v)),
                    at + 1,
                ),
                None => failed(path + " did not return a "@ + field),
            }
        },
    }
}

// -------------------------------------------------------------- work items

/// Whether some variable has a transform.
pub open spec fn uses(sources: Map<Seq<char>, VariableSource>, transform: Seq<char>) -> bool {
    exists|name: Seq<char>| #[trigger]
        sources.dom().contains(name) && opt_str(sources[name].transform) == Some(transform)
}

/// Whether the variables need the global id of a work item.
pub open spec fn wants_work_item(sources: Map<Seq<char>, VariableSource>) -> bool {
    uses(sources, "work_item_gid"@) || uses(sources, "issue_gid_from_work_item"@) || uses(
        sources,
        "timeline_event_create_input"@,
    )
}

/// The iid of a work item among the arguments.
pub open spec fn work_item_iid(args: Args) -> Option<Seq<char>> {
    if args.dom().contains("iid"@) {
        arg_scalar(args, "iid"@)
    } else {
        arg_scalar(args, "incident_iid"@)
    }
}

/// The document that finds the id of a work item.
pub open spec fn work_item_query() -> Seq<char> {
    "query($path: ID!, $iid: String!) { namespace(fullPath: $path) { workItem(iid: $iid) { id } } }"@
}

/// The document that lists the types of work items.
pub open spec fn work_item_types_query() -> Seq<char> {
    "query($path: ID!) { namespace(fullPath: $path) { workItemTypes { nodes { id name } } } }"@
}

/// A GraphQL tool has its full paths and asks for the id of its work item, where it
/// needs one.
pub open spec fn lookups_done(entry: Arc<ToolEntry>, args: Args, resolved: Args) -> StepView {
    if !wants_work_item(entry.endpoint.variables@) {
        work_item_done(entry, args, resolved)
    } else {
        match arg_text(resolved, "project_id"@) {
            None => failed("the project path could not be resolved"@),
            Some(path) => match work_item_iid(args) {
                None => failed("iid is required"@),
                Some(iid) => sent(
                    CallView::Graphql {
                        document: work_item_query(),
                        variables: JsonView::Object(
                            Map::<Seq<char>, JsonView>::empty().insert(
                                "path"@,
                                JsonView::Str(path),
                            ).insert("iid"@, JsonView::Str(iid)),
                        ),
                    },
                    entry,
                    args,
                    StageView::WorkItem { resolved, path, iid },
                ),
            },
        }
    }
}

/// What stands at `data.namespace` of a response, field by field.
pub open spec fn in_namespace(body: JsonView, outer: Seq<char>, inner: Seq<char>) -> Option<JsonView> {
    match body.field("data"@) {
        Some(data) => match data.field("namespace"@) {
            Some(namespace) => match namespace.field(outer) {
                Some(v) => v.field(inner),
                None => None,
            },
            None => None,
        },
        None => None,
    }
}

/// A GraphQL tool goes on with the work item that was found.
pub open spec fn work_item_found(
    entry: Arc<ToolEntry>,
    args: Args,
    resolved: Args,
    path: Seq<char>,
    iid: Seq<char>,
    reply: Result<ResponseView, ErrorView>,
) -> StepView {
    match reply {
        Err(e) => failed(e.text()),
        Ok(resp) => match in_namespace(resp.body, "workItem"@, "id"@) {
            Some(JsonView::Str(gid)) => work_item_done(
                entry,
                args,
                resolved.insert(work_item_gid(), JsonView::Str(gid)),
            ),
            _ => failed("work item #"@ + iid + " was not found in "@ + path),
        },
    }
}

/// The type of work item that the arguments name.
pub open spec fn wanted_type(args: Args) -> Seq<char> {
    match if args.dom().contains("type"@) {
        arg_text(args, "type"@)
    } else {
        arg_text(args, "new_type"@)
    } {
        Some(t) => t,
        None => "issue"@,
    }
}

/// A GraphQL tool asks for the id of its work item type, where it needs one.
pub open spec fn work_item_done(entry: Arc<ToolEntry>, args: Args, resolved: Args) -> StepView {
    if !uses(entry.endpoint.variables@, "work_item_type_gid"@) {
        query_sent(entry, args, resolved)
    } else {
        match arg_text(resolved, "project_id"@) {
            None => failed("the project path could not be resolved"@),
            Some(path) => sent(
                CallView::Graphql {
                    document: work_item_types_query(),
                    variables: JsonView::Object(
                        Map::<Seq<char>, JsonView>::empty().insert("path"@, JsonView::Str(path)),
                    ),
                },
                entry,
                args,
                StageView::WorkItemType { resolved, path, wanted: wanted_type(args) },
            ),
        }
    }
}

/// Whether a type has a name, in any case.
pub open spec fn type_named(node: JsonView, name: Seq<char>) -> bool {
    match text_field(node, "name"@) {
        Some(n) => ascii_lower(n) == ascii_lower(name),
        None => false,
    }
}

/// The first type from a position on that has a name.
pub open spec fn type_from(nodes: Seq<JsonView>, name: Seq<char>, from: int) -> Option<int>
    decreases nodes.len() - from,
{
    if from < 0 || from >= nodes.len() {
        None
    } else if type_named(nodes[from], name) {
        Some(from)
    } else {
        type_from(nodes, name, from + 1)
    }
}

/// The global id of the first type that has a name.
pub open spec fn type_id(nodes: Seq<JsonView>, wanted: Seq<char>) -> Option<Seq<char>> {
    match type_from(nodes, replace_all(wanted, "_"@, " "@), 0) {
        Some(i) => text_field(nodes[i], "id"@),
        None => None,
    }
}

/// A GraphQL tool goes on with the types that were listed.
pub open spec fn types_listed(
    entry: Arc<ToolEntry>,
    args: Args,
    resolved: Args,
    path: Seq<char>,
    wanted: Seq<char>,
    reply: Result<ResponseView, ErrorView>,
) -> StepView {
    match reply {
        Err(e) => failed(e.text()),
        Ok(resp) => match in_namespace(resp.body, "workItemTypes"@, "nodes"@) {
            Some(JsonView::Array(nodes)) => match type_id(nodes, wanted) {
                Some(gid) => query_sent(
                    entry,
                    args,
                    resolved.insert(work_item_type_gid(), JsonView::Str(gid)),
                ),
                None => failed(
                    "unknown work item type "@ + quote(wanted) + "; "@ + path + " offers: "@ + join(
                        field_texts(nodes, "name"@),
                        ", "@,
                    ),
                ),
            },
            _ => failed(path + " exposes no work item types"@),
        },
    }
}

// ---------------------------------------------------------------- document

/// A GraphQL tool sends its document.
pub open spec fn query_sent(entry: Arc<ToolEntry>, args: Args, resolved: Args) -> StepView {
    match entry.endpoint.query {
        None => failed(entry.meta.name@ + " is a GraphQL tool but carries no query document"@),
        Some(query) => match variables(entry.endpoint.variables@, args, resolved) {
            Err(e) => failed(e),
            Ok(vars) => sent(
                CallView::Graphql { document: query@, variables: JsonView::Object(vars) },
                entry,
                args,
                StageView::Query { resolved },
            ),
        },
    }
}

/// Settings that were changed are read again, with the paths already resolved.
pub open spec fn reread(reg: Registry, entry: Arc<ToolEntry>, args: Args, resolved: Args) -> StepView {
    if !reg.tools().dom().contains("get_dependency_proxy_settings"@) {
        failed("get_dependency_proxy_settings is missing"@)
    } else {
        let read = reg.tools()["get_dependency_proxy_settings"@];
        match read.endpoint.query {
            None => failed("the settings query is missing"@),
            Some(query) => match variables(read.endpoint.variables@, args, resolved) {
                Err(e) => failed(e),
                Ok(vars) => sent(
                    CallView::Graphql { document: query@, variables: JsonView::Object(vars) },
                    entry,
                    args,
                    StageView::Reread { read },
                ),
            },
        }
    }
}

/// A GraphQL tool goes on with the reply to its document.
pub open spec fn queried(
    reg: Registry,
    entry: Arc<ToolEntry>,
    args: Args,
    resolved: Args,
    reply: Result<ResponseView, ErrorView>,
) -> StepView {
    match reply {
        Err(e) => failed(e.text()),
        Ok(resp) => match mutation_failure(resp.body) {
            Some(e) => failed(e),
            None => if entry.meta.name@ == "update_dependency_proxy_settings"@ {
                reread(reg, entry, args, resolved)
            } else {
                succeeded(descend(resp.body, strs(entry.endpoint.result_path@)))
            },
        },
    }
}

/// A GraphQL tool ends with the settings that were read again.
pub open spec fn reread_ended(
    read: Arc<ToolEntry>,
    reply: Result<ResponseView, ErrorView>,
) -> StepView {
    match reply {
        Err(e) => failed(e.text()),
        Ok(resp) => match mutation_failure(resp.body) {
            Some(e) => failed(e),
            None => succeeded(descend(resp.body, strs(read.endpoint.result_path@))),
        },
    }
}

/// The caller's own document is passed on as it is.
pub open spec fn passed_through(entry: Arc<ToolEntry>, args: Args) -> StepView {
    match arg_text(args, "query"@) {
        None => failed("execute_graphql requires a `query` string"@),
        Some(query) => sent(
            CallView::Graphql {
                document: query,
                variables: match lookup(args, "variables"@) {
                    Some(v) => v,
                    None => JsonView::Object(Map::empty()),
                },
            },
            entry,
            args,
            StageView::Passthrough,
        ),
    }
}

/// A GraphQL tool begins.
pub open spec fn graphql_begun(entry: Arc<ToolEntry>, args: Args) -> StepView {
    if entry.meta.name@ == "execute_graphql"@ {
        passed_through(entry, args)
    } else if entry.endpoint.query is None {
        failed(entry.meta.name@ + " is a GraphQL tool but carries no query document"@)
    } else {
        lookups_from(entry, args, Map::empty(), 0)
    }
}

// -------------------------------------------------------------- operations

/// The arguments that an endpoint looks up.
fn lookup_targets(ep: &Endpoint, step: &PreStep) -> (r: Vec<String>)
    requires
        ep.pre_step == Some(*step),
    ensures
        strs(r@) == targets(*ep),
{
    let mut out: Vec<String> = vec![step.arg.clone()];
    let count: usize = ep.variables.len();
    let ghost names = in_order(ep.variables@.dom());
    assert(strs(out@) == seq![step.arg@]);
    for i in 0..count
        invariant
            names == in_order(ep.variables@.dom()),
            count == names.len(),
            count == ep.variables.pairs().len(),
            strs(out@) == targets_with(step.arg@, ep.variables@, names.take(i as int)),
    {
        let (_name, src) = ep.variables.entry(i);
        assert(names.take(i + 1).drop_last() == names.take(i as int));
        let full_path = match &src.transform {
            Some(t) => same(t.as_str(), "resolved_full_path"),
            None => false,
        };
        if full_path {
            if let Some(from) = &src.from {
                if !listed(&out, from.as_str()) {
                    let ghost held = out@;
                    out.push(from.clone());
                    assert(strs(out@) == strs(held).push(from@));
                }
            }
        }
    }
    assert(names.take(count as int) == names);
    out
}

/// A GraphQL tool goes on with the lookups from one of its targets on. Several
/// calls need a namespace full path rather than the id the caller supplied, and
/// moving a work item needs two of them.
fn continue_lookups(entry: &Arc<ToolEntry>, args: JsonMap, resolved: JsonMap, at: usize) -> (r: Step)
    ensures
        r@ == lookups_from(*entry, args.fields(), resolved.fields(), at as int),
{
    let mut found = resolved;
    let step = match &entry.endpoint.pre_step {
        Some(step) => step,
        None => {
            return finish_lookups(entry, args, found);
        },
    };
    let all = lookup_targets(&entry.endpoint, step);
    assert(strs(all@).len() == all@.len());
    let mut i: usize = at;
    while i < all.len()
        invariant
            entry.endpoint.pre_step == Some(*step),
            strs(all@) == targets(*entry.endpoint),
            strs(all@).len() == all@.len(),
            lookups_from(*entry, args.fields(), found.fields(), i as int) == lookups_from(
                *entry,
                args.fields(),
                resolved.fields(),
                at as int,
            ),
        decreases all@.len() - i,
    {
        let target = all[i].as_str();
        assert(targets(*entry.endpoint)[i as int] == target@);
        match scalar_arg(&args, target) {
            None => {},
            Some(raw) => {
                let needed = match &step.when {
                    Some(w) => !same(w.as_str(), "numeric") || is_all_digits(raw.as_str()),
                    None => true,
                };
                if needed {
                    let mut slot = "{".to_string();
                    slot.append(step.arg.as_str());
                    slot.append("}");
                    proof {
                        reveal_strlit("{");
                    }
                    let path = replaced_all(
                        step.path.as_str(),
                        slot.as_str(),
                        enc(raw.as_str()).as_str(),
                    );
                    return match parse_method(step.method.as_str()) {
                        Ok(method) => send(
                            call_with(method.as_str(), path.clone(), None),
                            entry,
                            args,
                            Stage::Lookup { resolved: found, at: i, path },
                        ),
                        Err(e) => fail(e.0),
                    };
                }
                found.put(target, Json::Str(raw));
            },
        }
        i = i + 1;
    }
    finish_lookups(entry, args, found)
}

/// A GraphQL tool goes on with what a lookup found.
pub fn on_lookup(
    entry: &Arc<ToolEntry>,
    args: JsonMap,
    resolved: JsonMap,
    at: usize,
    path: String,
    reply: Result<ApiResponse, ApiError>,
) -> (r: Step)
    ensures
        r@ == looked_up(*entry, args.fields(), resolved.fields(), at as int, path@, answer(reply)),
{
    let resp = match reply {
        Ok(resp) => resp,
        Err(e) => {
            return fail(e.text());
        },
    };
    let step = match &entry.endpoint.pre_step {
        Some(step) => step,
        None => {
            return finish_lookups(entry, args, resolved);
        },
    };
    let all = lookup_targets(&entry.endpoint, step);
    assert(strs(all@).len() == all@.len());
    if at >= all.len() {
        return finish_lookups(entry, args, resolved);
    }
    match text_at(&resp.body, step.field.as_str()) {
        Some(v) => {
            assert(strs(all@)[at as int] == all@[at as int]@);
            let mut resolved = resolved;
            resolved.put(all[at].as_str(), Json::from_text(v));
            continue_lookups(entry, args, resolved, at + 1)
        },
        None => {
            let mut message = path;
            message.append(" did not return a ");
            message.append(step.field.as_str());
            fail(message)
        },
    }
}

/// Whether some variable has a transform.
fn has_transform(sources: &StrMap<VariableSource>, transform: &str) -> (r: bool)
    ensures
        r == uses(sources@, transform@),
{
    let count: usize = sources.len();
    let ghost names = in_order(sources@.dom());
    proof {
        lemma_map_of_finite(sources.pairs());
        lemma_set_in_order(sources@.dom());
    }
    for i in 0..count
        invariant
            names == in_order(sources@.dom()),
            names.to_set() == sources@.dom(),
            count == names.len(),
            count == sources.pairs().len(),
            forall|j: int|
                0 <= j < i ==> opt_str(sources@[#[trigger] names[j]].transform) != Some(transform@),
    {
        let (name, src) = sources.entry(i);
        if let Some(t) = &src.transform {
            if same(t.as_str(), transform) {
                assert(sources@.dom().contains(name@));
                return true;
            }
        }
    }
    proof {
        if uses(sources@, transform@) {
            let name = choose|name: Seq<char>| #[trigger]
                sources@.dom().contains(name) && opt_str(sources@[name].transform) == Some(
                    transform@,
                );
            assert(names.to_set().contains(name));
            let j = choose|j: int| 0 <= j < names.len() && names[j] == name;
            assert(opt_str(sources@[names[j]].transform) != Some(transform@));
        }
    }
    false
}

/// A GraphQL tool has its full paths. Work item mutations address their target by
/// global id, which costs one more GraphQL round trip.
fn finish_lookups(entry: &Arc<ToolEntry>, args: JsonMap, resolved: JsonMap) -> (r: Step)
    ensures
        r@ == lookups_done(*entry, args.fields(), resolved.fields()),
{
    let sources = &entry.endpoint.variables;
    if !has_transform(sources, "work_item_gid") && !has_transform(
        sources,
        "issue_gid_from_work_item",
    ) && !has_transform(sources, "timeline_event_create_input") {
        return finish_work_item(entry, args, resolved);
    }
    let path = match text_arg(&resolved, "project_id") {
        Some(p) => p.to_string(),
        None => {
            return fail_with("the project path could not be resolved");
        },
    };
    let iid = match if args.has_field("iid") {
        scalar_arg(&args, "iid")
    } else {
        scalar_arg(&args, "incident_iid")
    } {
        Some(i) => i,
        None => {
            return fail_with("iid is required");
        },
    };
    let mut vars = JsonMap::empty();
    vars.put("path", Json::from_text(path.as_str()));
    vars.put("iid", Json::from_text(iid.as_str()));
    let query =
        "query($path: ID!, $iid: String!) { namespace(fullPath: $path) { workItem(iid: $iid) { id } } }".to_string();
    send(
        ApiCall::Graphql { document: query, variables: Json::Object(vars) },
        entry,
        args,
        Stage::WorkItem { resolved, path, iid },
    )
}

/// What stands at `data.namespace` of a response, field by field.
fn namespace_at<'a>(body: &'a Json, outer: &str, inner: &str) -> (r: Option<&'a Json>)
    ensures
        seen(r) == in_namespace(body@, outer@, inner@),
{
    match body.get("data") {
        Some(data) => match data.get("namespace") {
            Some(namespace) => match namespace.get(outer) {
                Some(v) => v.get(inner),
                None => None,
            },
            None => None,
        },
        None => None,
    }
}

/// A GraphQL tool goes on with the work item that was found.
pub fn on_work_item(
    entry: &Arc<ToolEntry>,
    args: JsonMap,
    resolved: JsonMap,
    path: String,
    iid: String,
    reply: Result<ApiResponse, ApiError>,
) -> (r: Step)
    ensures
        r@ == work_item_found(
            *entry,
            args.fields(),
            resolved.fields(),
            path@,
            iid@,
            answer(reply),
        ),
{
    let resp = match reply {
        Ok(resp) => resp,
        Err(e) => {
            return fail(e.text());
        },
    };
    let gid = match namespace_at(&resp.body, "workItem", "id") {
        Some(id) => id.as_str(),
        None => None,
    };
    match gid {
        Some(gid) => {
            let mut resolved = resolved;
            resolved.put("__work_item_gid", Json::from_text(gid));
            finish_work_item(entry, args, resolved)
        },
        None => {
            let mut message = "work item #".to_string();
            message.append(iid.as_str());
            message.append(" was not found in ");
            message.append(path.as_str());
            fail(message)
        },
    }
}

/// A GraphQL tool asks for the id of its work item type, where it needs one: types
/// are named by the caller but addressed by global id.
fn finish_work_item(entry: &Arc<ToolEntry>, args: JsonMap, resolved: JsonMap) -> (r: Step)
    ensures
        r@ == work_item_done(*entry, args.fields(), resolved.fields()),
{
    if !has_transform(&entry.endpoint.variables, "work_item_type_gid") {
        return send_query(entry, args, resolved);
    }
    let wanted = match if args.has_field("type") {
        text_arg(&args, "type")
    } else {
        text_arg(&args, "new_type")
    } {
        Some(t) => t.to_string(),
        None => "issue".to_string(),
    };
    let path = match text_arg(&resolved, "project_id") {
        Some(p) => p.to_string(),
        None => {
            return fail_with("the project path could not be resolved");
        },
    };
    let mut vars = JsonMap::empty();
    vars.put("path", Json::from_text(path.as_str()));
    let query =
        "query($path: ID!) { namespace(fullPath: $path) { workItemTypes { nodes { id name } } } }".to_string();
    send(
        ApiCall::Graphql { document: query, variables: Json::Object(vars) },
        entry,
        args,
        Stage::WorkItemType { resolved, path, wanted },
    )
}

/// The global id of the first type that has a name.
fn find_type(nodes: &Vec<Json>, wanted: &str) -> (r: Option<String>)
    ensures
        opt_str(r) == type_id(views(nodes@), wanted@),
{
    proof {
        reveal_strlit("_");
    }
    let name = replaced_all(wanted, "_", " ");
    for i in 0..nodes.len()
        invariant
            name@ == replace_all(wanted@, "_"@, " "@),
            type_from(views(nodes@), name@, 0) == type_from(views(nodes@), name@, i as int),
    {
        assert(views(nodes@)[i as int] == nodes@[i as int]@);
        let hit = match text_at(&nodes[i], "name") {
            Some(n) => same_ignoring_case(n, name.as_str()),
            None => false,
        };
        if hit {
            return match text_at(&nodes[i], "id") {
                Some(id) => Some(id.to_string()),
                None => None,
            };
        }
    }
    None
}

/// A GraphQL tool goes on with the types that were listed.
pub fn on_work_item_types(
    entry: &Arc<ToolEntry>,
    args: JsonMap,
    resolved: JsonMap,
    path: String,
    wanted: String,
    reply: Result<ApiResponse, ApiError>,
) -> (r: Step)
    ensures
        r@ == types_listed(
            *entry,
            args.fields(),
            resolved.fields(),
            path@,
            wanted@,
            answer(reply),
        ),
{
    let resp = match reply {
        Ok(resp) => resp,
        Err(e) => {
            return fail(e.text());
        },
    };
    let nodes = match namespace_at(&resp.body, "workItemTypes", "nodes") {
        Some(list) => list.as_array(),
        None => None,
    };
    let nodes = match nodes {
        Some(nodes) => nodes,
        None => {
            return fail(path.concat(" exposes no work item types"));
        },
    };
    match find_type(nodes, wanted.as_str()) {
        Some(gid) => {
            let mut resolved = resolved;
            resolved.put("__work_item_type_gid", Json::Str(gid));
            send_query(entry, args, resolved)
        },
        None => {
            let mut message = "unknown work item type ".to_string();
            message.append(quoted(wanted.as_str()).as_str());
            message.append("; ");
            message.append(path.as_str());
            message.append(" offers: ");
            message.append(joined(&field_texts_of(nodes, "name"), ", ").as_str());
            fail(message)
        },
    }
}

/// A GraphQL tool has nothing to send.
fn no_document(entry: &Arc<ToolEntry>) -> (r: Step)
    ensures
        r@ == failed(
            entry.meta.name@ + " is a GraphQL tool but carries no query document"@,
        ),
{
    fail(entry.meta.name.clone().concat(" is a GraphQL tool but carries no query document"))
}

/// A GraphQL tool sends its document.
fn send_query(entry: &Arc<ToolEntry>, args: JsonMap, resolved: JsonMap) -> (r: Step)
    ensures
        r@ == query_sent(*entry, args.fields(), resolved.fields()),
{
    let query = match &entry.endpoint.query {
        Some(q) => q.clone(),
        None => {
            return no_document(entry);
        },
    };
    match build_variables(&entry.endpoint.variables, &args, &resolved) {
        Ok(vars) => send(
            ApiCall::Graphql { document: query, variables: Json::Object(vars) },
            entry,
            args,
            Stage::Query { resolved },
        ),
        Err(e) => fail(e.0),
    }
}

/// A GraphQL tool goes on with the reply to its document.
pub fn on_query(
    reg: &Registry,
    entry: &Arc<ToolEntry>,
    args: JsonMap,
    resolved: JsonMap,
    reply: Result<ApiResponse, ApiError>,
) -> (r: Step)
    ensures
        r@ == queried(*reg, *entry, args.fields(), resolved.fields(), answer(reply)),
{
    let resp = match reply {
        Ok(resp) => resp,
        Err(e) => {
            return fail(e.text());
        },
    };
    if let Err(e) = check_mutation_errors(&resp.body) {
        return fail(e.0);
    }
    if !same(entry.meta.name.as_str(), "update_dependency_proxy_settings") {
        return succeed(unwrap_path(resp.body, &entry.endpoint.result_path));
    }
    // Updating dependency proxy settings discards the mutation payload and re-reads
    // the settings with the path already resolved.
    let read = match reg.get("get_dependency_proxy_settings") {
        Some(read) => read,
        None => {
            return fail_with("get_dependency_proxy_settings is missing");
        },
    };
    let query = match &read.endpoint.query {
        Some(q) => q.clone(),
        None => {
            return fail_with("the settings query is missing");
        },
    };
    match build_variables(&read.endpoint.variables, &args, &resolved) {
        Ok(vars) => send(
            ApiCall::Graphql { document: query, variables: Json::Object(vars) },
            entry,
            args,
            Stage::Reread { read },
        ),
        Err(e) => fail(e.0),
    }
}

/// A GraphQL tool ends with the settings that were read again.
pub fn on_reread(read: &Arc<ToolEntry>, reply: Result<ApiResponse, ApiError>) -> (r: Step)
    ensures
        r@ == reread_ended(*read, answer(reply)),
{
    let resp = match reply {
        Ok(resp) => resp,
        Err(e) => {
            return fail(e.text());
        },
    };
    if let Err(e) = check_mutation_errors(&resp.body) {
        return fail(e.0);
    }
    succeed(unwrap_path(resp.body, &read.endpoint.result_path))
}

/// A GraphQL tool begins.
pub fn call_graphql(entry: &Arc<ToolEntry>, args: JsonMap) -> (r: Step)
    ensures
        r@ == graphql_begun(*entry, args.fields()),
{
    // `execute_graphql` is a passthrough: the caller supplies the document.
    if same(entry.meta.name.as_str(), "execute_graphql") {
        let query = match text_arg(&args, "query") {
            Some(q) => q.to_string(),
            None => {
                return fail_with("execute_graphql requires a `query` string");
            },
        };
        let variables = match args.field("variables") {
            Some(v) => v.copy(),
            None => Json::Object(JsonMap::empty()),
        };
        return send(ApiCall::Graphql { document: query, variables }, entry, args, Stage::Passthrough);
    }
    if entry.endpoint.query.is_none() {
        return no_document(entry);
    }
    continue_lookups(entry, args, JsonMap::empty(), 0)
}

// -------------------------------------------------------------------- laws

/// No argument is looked up twice, however many variables want its full path.
pub proof fn law_targets_are_distinct(ep: Endpoint)
    ensures
        targets(ep).no_duplicates(),
{
    if let Some(step) = ep.pre_step {
        lemma_targets_distinct(step.arg@, ep.variables@, in_order(ep.variables@.dom()));
    }
}

proof fn lemma_targets_distinct(
    first: Seq<char>,
    sources: Map<Seq<char>, VariableSource>,
    names: Seq<Seq<char>>,
)
    ensures
        targets_with(first, sources, names).no_duplicates(),
    decreases names.len(),
{
    if names.len() > 0 {
        lemma_targets_distinct(first, sources, names.drop_last());
    }
}

/// Every argument that a variable takes the full path of is looked up, where the
/// endpoint looks anything up.
pub proof fn law_full_paths_are_looked_up(ep: Endpoint, name: Seq<char>)
    requires
        ep.pre_step is Some,
        ep.variables@.dom().contains(name),
        opt_str(ep.variables@[name].transform) == Some("resolved_full_path"@),
        ep.variables@[name].from is Some,
    ensures
        targets(ep).contains(ep.variables@[name].from->0@),
        targets(ep).contains(ep.pre_step->0.arg@),
{
    let names = in_order(ep.variables@.dom());
    lemma_map_of_finite(ep.variables.pairs());
    lemma_set_in_order(ep.variables@.dom());
    assert(names.to_set().contains(name));
    let j = choose|j: int| 0 <= j < names.len() && names[j] == name;
    lemma_target_listed(ep.pre_step->0.arg@, ep.variables@, names, j);
}

proof fn lemma_target_listed(
    first: Seq<char>,
    sources: Map<Seq<char>, VariableSource>,
    names: Seq<Seq<char>>,
    j: int,
)
    requires
        0 <= j < names.len(),
        opt_str(sources[names[j]].transform) == Some("resolved_full_path"@),
        sources[names[j]].from is Some,
    ensures
        targets_with(first, sources, names).contains(sources[names[j]].from->0@),
        targets_with(first, sources, names).contains(first),
    decreases names.len(),
{
    let head = targets_with(first, sources, names.drop_last());
    let all = targets_with(first, sources, names);
    let wanted = sources[names[j]].from->0@;
    lemma_first_listed(first, sources, names.drop_last());
    assert forall|x: Seq<char>| head.contains(x) implies all.contains(x) by {
        let i = choose|i: int| 0 <= i < head.len() && head[i] == x;
        assert(all[i] == x);
    }
    if j < names.len() - 1 {
        lemma_target_listed(first, sources, names.drop_last(), j);
    } else if !head.contains(wanted) {
        assert(all[head.len() as int] == wanted);
    }
}

proof fn lemma_first_listed(
    first: Seq<char>,
    sources: Map<Seq<char>, VariableSource>,
    names: Seq<Seq<char>>,
)
    ensures
        targets_with(first, sources, names).contains(first),
    decreases names.len(),
{
    let all = targets_with(first, sources, names);
    if names.len() > 0 {
        let head = targets_with(first, sources, names.drop_last());
        lemma_first_listed(first, sources, names.drop_last());
        let i = choose|i: int| 0 <= i < head.len() && head[i] == first;
        assert(all[i] == first);
    } else {
        assert(all[0] == first);
    }
}

} // verus!
