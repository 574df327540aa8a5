//! Laws of GraphQL tools: what is looked up first, which variables a document gets, and
//! what is made of the reply.

use crate::args::Args;
use crate::encode::segment;
use crate::exec::Executor;
use crate::flow::{StageView, StepView, TaskView};
use crate::gitlab::{CallView, ErrorView, ResponseView};
use crate::graphql::{graphql_begun, lookups_done, lookups_from, query_sent, reread, targets,
    targets_with, type_from, uses, wants_work_item, work_item_done};
use crate::http::method_name;
use crate::json::JsonView;
use crate::laws::waits::{given, said};
use crate::lists::{field_texts, texts};
use crate::number::NumberView;
use crate::registry::{Endpoint, PreStep, Registry, ToolEntry, VariableSource};
use crate::search::replace_all;
use crate::shape::{descend, mutation_failure};
use crate::strmap::in_order;
use crate::text::{ascii_lower, join, opt_str, strs};
use crate::unicode::{quote, uppercase};
use crate::variables::{transformed, variable_value, variables, variables_named};
use std::sync::Arc;
use vstd::prelude::*;
use vstd::string::*;

verus! {

// ------------------------------------------------------------- the document

/// A caller's own document is passed on as it is, with its variables, or with none.
pub proof fn law_own_documents(
    executor: Executor,
    reg: Registry,
    entry: Arc<ToolEntry>,
    args: Args,
    resp: ResponseView,
    e: ErrorView,
    now: nat,
)
    requires
        entry.meta.name@ == "execute_graphql"@,
    ensures
        ({
            let task = TaskView { entry, args, stage: StageView::Passthrough };
            let first = graphql_begun(entry, args);
            let own = args.dom().contains("query"@) && args["query"@] is Str;
            &&& !own ==> first == StepView::Done(
                Err("execute_graphql requires a `query` string"@),
            )
            &&& own && args.dom().contains("variables"@) ==> first == StepView::Send(
                CallView::Graphql {
                    document: args["query"@]->Str_0,
                    variables: args["variables"@],
                },
                task,
            )
            &&& own && !args.dom().contains("variables"@) ==> first == StepView::Send(
                CallView::Graphql {
                    document: args["query"@]->Str_0,
                    variables: JsonView::Object(Map::<Seq<char>, JsonView>::empty()),
                },
                task,
            )
            &&& executor.resumed(reg, task, Ok(resp), now) == StepView::Done(Ok(resp.body))
            &&& executor.resumed(reg, task, Err(e), now) == StepView::Done(Err(e.text()))
        }),
{
}

/// Any other tool brings its document along, and begins with the lookups that it needs.
pub proof fn law_stored_documents(entry: Arc<ToolEntry>, args: Args, resolved: Args)
    requires
        entry.meta.name@ != "execute_graphql"@,
    ensures
        entry.endpoint.query is None ==> graphql_begun(entry, args) == StepView::Done(
            Err(entry.meta.name@ + " is a GraphQL tool but carries no query document"@),
        ),
        entry.endpoint.query is None ==> query_sent(entry, args, resolved) == StepView::Done(
            Err(entry.meta.name@ + " is a GraphQL tool but carries no query document"@),
        ),
        entry.endpoint.query is Some ==> graphql_begun(entry, args) == lookups_from(
            entry,
            args,
            Map::<Seq<char>, JsonView>::empty(),
            0,
        ),
        entry.endpoint.query is Some ==> match variables(
            entry.endpoint.variables@,
            args,
            resolved,
        ) {
            Err(e) => query_sent(entry, args, resolved) == StepView::Done(Err(e)),
            Ok(vars) => query_sent(entry, args, resolved) == StepView::Send(
                CallView::Graphql {
                    document: entry.endpoint.query->0@,
                    variables: JsonView::Object(vars),
                },
                TaskView { entry, args, stage: StageView::Query { resolved } },
            ),
        },
{
}

/// What a document answers is the result, as far into it as the endpoint says; a mutation
/// that reports errors has failed.
pub proof fn law_document_results(
    executor: Executor,
    reg: Registry,
    entry: Arc<ToolEntry>,
    args: Args,
    resolved: Args,
    resp: ResponseView,
    e: ErrorView,
    now: nat,
)
    ensures
        ({
            let task = TaskView { entry, args, stage: StageView::Query { resolved } };
            let next = executor.resumed(reg, task, Ok(resp), now);
            &&& executor.resumed(reg, task, Err(e), now) == StepView::Done(Err(e.text()))
            &&& mutation_failure(resp.body) matches Some(problem) ==> next == StepView::Done(
                Err(problem),
            )
            &&& mutation_failure(resp.body) is None && entry.meta.name@
                != "update_dependency_proxy_settings"@ ==> next == StepView::Done(
                Ok(descend(resp.body, strs(entry.endpoint.result_path@))),
            )
            &&& mutation_failure(resp.body) is None && entry.meta.name@
                == "update_dependency_proxy_settings"@ ==> next == reread(
                reg,
                entry,
                args,
                resolved,
            )
        }),
{
}

/// Settings that were changed are read again, by the document of the tool that reads
/// them; that is the result.
pub proof fn law_changed_settings_are_read(
    executor: Executor,
    reg: Registry,
    entry: Arc<ToolEntry>,
    args: Args,
    resolved: Args,
    read: Arc<ToolEntry>,
    resp: ResponseView,
    e: ErrorView,
    now: nat,
)
    ensures
        !reg.tools().dom().contains("get_dependency_proxy_settings"@) ==> reread(
            reg,
            entry,
            args,
            resolved,
        ) == StepView::Done(Err("get_dependency_proxy_settings is missing"@)),
        reg.tools().dom().contains("get_dependency_proxy_settings"@)
            && reg.tools()["get_dependency_proxy_settings"@] == read ==> {
            let next = reread(reg, entry, args, resolved);
            &&& read.endpoint.query is None ==> next == StepView::Done(
                Err("the settings query is missing"@),
            )
            &&& read.endpoint.query is Some ==> match variables(
                read.endpoint.variables@,
                args,
                resolved,
            ) {
                Err(problem) => next == StepView::Done(Err(problem)),
                Ok(vars) => next == StepView::Send(
                    CallView::Graphql {
                        document: read.endpoint.query->0@,
                        variables: JsonView::Object(vars),
                    },
                    TaskView { entry, args, stage: StageView::Reread { read } },
                ),
            }
        },
        ({
            let task = TaskView { entry, args, stage: StageView::Reread { read } };
            let next = executor.resumed(reg, task, Ok(resp), now);
            &&& executor.resumed(reg, task, Err(e), now) == StepView::Done(Err(e.text()))
            &&& mutation_failure(resp.body) matches Some(problem) ==> next == StepView::Done(
                Err(problem),
            )
            &&& mutation_failure(resp.body) is None ==> next == StepView::Done(
                Ok(descend(resp.body, strs(read.endpoint.result_path@))),
            )
        }),
{
}

// ----------------------------------------------------------------- lookups

/// What has to be looked up: the argument of the lookup itself, and each argument that a
/// variable takes the full path of, once.
pub proof fn law_what_is_looked_up(
    ep: Endpoint,
    first: Seq<char>,
    sources: Map<Seq<char>, VariableSource>,
    names: Seq<Seq<char>>,
    name: Seq<char>,
)
    ensures
        ep.pre_step is None ==> targets(ep).len() == 0,
        ep.pre_step matches Some(step) ==> targets(ep) == targets_with(
            step.arg@,
            ep.variables@,
            in_order(ep.variables@.dom()),
        ),
        targets_with(first, sources, Seq::<Seq<char>>::empty()) == seq![first],
        ({
            let head = targets_with(first, sources, names);
            let more = targets_with(first, sources, names.push(name));
            let src = sources[name];
            let full = src.transform is Some && src.transform->0@ == "resolved_full_path"@
                && src.from is Some;
            &&& !full ==> more == head
            &&& full && head.contains(src.from->0@) ==> more == head
            &&& full && !head.contains(src.from->0@) ==> more == head.push(src.from->0@)
        }),
{
    assert(names.push(name).drop_last() =~= names);
    assert(names.push(name).last() == name);
}

/// The endpoint of a tool.
pub open spec fn mapped_to(entry: Arc<ToolEntry>) -> Endpoint {
    *entry.endpoint
}

/// How a tool looks its arguments up.
pub open spec fn step_of(entry: Arc<ToolEntry>) -> PreStep {
    entry.endpoint.pre_step->0
}

/// Whether a value has to be looked up: always, or, where only numbers are, when it is a
/// row of digits.
pub open spec fn unresolved(step: PreStep, value: Seq<char>) -> bool {
    (step.when is Some && step.when->0@ == "numeric"@) ==> forall|i: int|
        0 <= i < value.len() ==> '0' <= #[trigger] value[i] <= '9'
}

/// One argument after the other is looked up, at the path of the lookup with the encoded
/// value in it. A value that needs no lookup is kept as it is, and one that is not given
/// is passed over.
pub proof fn law_lookups(entry: Arc<ToolEntry>, args: Args, resolved: Args, at: int)
    requires
        0 <= at,
    ensures
        ({
            let all = targets(mapped_to(entry));
            let step = step_of(entry);
            let next = lookups_from(entry, args, resolved, at);
            &&& at >= all.len() ==> next == lookups_done(entry, args, resolved)
            &&& at < all.len() && !given(args, all[at]) ==> next == lookups_from(
                entry,
                args,
                resolved,
                at + 1,
            )
            &&& at < all.len() && given(args, all[at]) && !unresolved(step, said(args, all[at]))
                ==> next == lookups_from(
                entry,
                args,
                resolved.insert(all[at], JsonView::Str(said(args, all[at]))),
                at + 1,
            )
            &&& at < all.len() && given(args, all[at]) && unresolved(step, said(args, all[at]))
                && !method_name(step.method@) ==> next == StepView::Done(
                Err("unsupported HTTP method "@ + step.method@),
            )
            &&& at < all.len() && given(args, all[at]) && unresolved(step, said(args, all[at]))
                && method_name(step.method@) ==> {
                let path = replace_all(
                    step.path@,
                    "{"@ + step.arg@ + "}"@,
                    segment(said(args, all[at])),
                );
                next == StepView::Send(
                    CallView::Rest { method: step.method@, path, query: seq![], body: None },
                    TaskView { entry, args, stage: StageView::Lookup { resolved, at, path } },
                )
            }
        }),
{
    let all = targets(mapped_to(entry));
    if at < all.len() && given(args, all[at]) {
        let value = said(args, all[at]);
        assert(unresolved(step_of(entry), value) == crate::graphql::needs_lookup(
            step_of(entry),
            value,
        ));
    }
}

/// What a lookup finds is kept under the argument that it was made for; a reply that
/// lacks it ends the call.
pub proof fn law_lookups_are_kept(
    executor: Executor,
    reg: Registry,
    entry: Arc<ToolEntry>,
    args: Args,
    resolved: Args,
    at: int,
    path: Seq<char>,
    resp: ResponseView,
    e: ErrorView,
    now: nat,
)
    requires
        0 <= at < targets(mapped_to(entry)).len(),
    ensures
        ({
            let task = TaskView { entry, args, stage: StageView::Lookup { resolved, at, path } };
            let next = executor.resumed(reg, task, Ok(resp), now);
            let field = step_of(entry).field@;
            let found = resp.body matches JsonView::Object(m) && m.dom().contains(field)
                && m[field] is Str;
            &&& executor.resumed(reg, task, Err(e), now) == StepView::Done(Err(e.text()))
            &&& found ==> next == lookups_from(
                entry,
                args,
                resolved.insert(targets(mapped_to(entry))[at], resp.body->Object_0[field]),
                at + 1,
            )
            &&& !found ==> next == StepView::Done(Err(path + " did not return a "@ + field))
        }),
{
}

// -------------------------------------------------------------- work items

/// Whether a variable of the tool is made by a transform.
pub open spec fn made_by(entry: Arc<ToolEntry>, name: Seq<char>, transform: Seq<char>) -> bool {
    &&& entry.endpoint.variables@.dom().contains(name)
    &&& entry.endpoint.variables@[name].transform is Some
    &&& entry.endpoint.variables@[name].transform->0@ == transform
}

/// Whether a variable of the tool is made of a work item.
pub open spec fn of_work_item(entry: Arc<ToolEntry>, name: Seq<char>) -> bool {
    made_by(entry, name, "work_item_gid"@) || made_by(entry, name, "issue_gid_from_work_item"@)
        || made_by(entry, name, "timeline_event_create_input"@)
}

/// The iid of a work item: that of an incident where no other is given.
pub open spec fn iid_key(args: Args) -> Seq<char> {
    if args.dom().contains("iid"@) {
        "iid"@
    } else {
        "incident_iid"@
    }
}

proof fn lemma_uses(entry: Arc<ToolEntry>, transform: Seq<char>)
    ensures
        uses(entry.endpoint.variables@, transform) <==> exists|name: Seq<char>| #[trigger]
            made_by(entry, name, transform),
{
    let sources = entry.endpoint.variables@;
    if uses(sources, transform) {
        let name = choose|name: Seq<char>| #[trigger]
            sources.dom().contains(name) && opt_str(sources[name].transform) == Some(transform);
        assert(made_by(entry, name, transform));
    }
    if exists|name: Seq<char>| #[trigger] made_by(entry, name, transform) {
        let name = choose|name: Seq<char>| #[trigger] made_by(entry, name, transform);
        assert(sources.dom().contains(name) && opt_str(sources[name].transform) == Some(transform));
    }
}

/// Where a variable is made of a work item, its global id is asked for, by the path of
/// the project and the iid; where none is, no id is.
pub proof fn law_work_items_are_asked_for(
    entry: Arc<ToolEntry>,
    args: Args,
    resolved: Args,
    name: Seq<char>,
)
    ensures
        (forall|n: Seq<char>| !#[trigger] of_work_item(entry, n)) ==> lookups_done(
            entry,
            args,
            resolved,
        ) == work_item_done(entry, args, resolved),
        of_work_item(entry, name) ==> {
            let next = lookups_done(entry, args, resolved);
            let located = resolved.dom().contains("project_id"@) && resolved["project_id"@] is Str;
            &&& !located ==> next == StepView::Done(
                Err("the project path could not be resolved"@),
            )
            &&& located && !given(args, iid_key(args)) ==> next == StepView::Done(
                Err("iid is required"@),
            )
            &&& located && given(args, iid_key(args)) ==> {
                let path = resolved["project_id"@]->Str_0;
                let iid = said(args, iid_key(args));
                &&& next is Send
                &&& next->Send_1 == (TaskView {
                    entry,
                    args,
                    stage: StageView::WorkItem { resolved, path, iid },
                })
                &&& next->Send_0 is Graphql
                &&& next->Send_0->document
                    == "query($path: ID!, $iid: String!) { namespace(fullPath: $path) { workItem(iid: $iid) { id } } }"@
                &&& next->Send_0->variables is Object
                &&& next->Send_0->variables->Object_0 == map![
                    "path"@ => JsonView::Str(path),
                    "iid"@ => JsonView::Str(iid),
                ]
            }
        },
{
    lemma_uses(entry, "work_item_gid"@);
    lemma_uses(entry, "issue_gid_from_work_item"@);
    lemma_uses(entry, "timeline_event_create_input"@);
    if forall|n: Seq<char>| !#[trigger] of_work_item(entry, n) {
        if wants_work_item(entry.endpoint.variables@) {
            if uses(entry.endpoint.variables@, "work_item_gid"@) {
                let n = choose|n: Seq<char>| #[trigger] made_by(entry, n, "work_item_gid"@);
                assert(of_work_item(entry, n));
            } else if uses(entry.endpoint.variables@, "issue_gid_from_work_item"@) {
                let n = choose|n: Seq<char>| #[trigger]
                    made_by(entry, n, "issue_gid_from_work_item"@);
                assert(of_work_item(entry, n));
            } else {
                let n = choose|n: Seq<char>| #[trigger]
                    made_by(entry, n, "timeline_event_create_input"@);
                assert(of_work_item(entry, n));
            }
        }
    }
    if of_work_item(entry, name) {
        assert(wants_work_item(entry.endpoint.variables@));
        reveal_strlit("path");
        reveal_strlit("iid");
        assert("path"@.len() == 4 && "iid"@.len() == 3);
        let next = lookups_done(entry, args, resolved);
        let located = resolved.dom().contains("project_id"@) && resolved["project_id"@] is Str;
        if located && given(args, iid_key(args)) {
            assert(next->Send_0->variables->Object_0 =~= map![
                "path"@ => resolved["project_id"@],
                "iid"@ => JsonView::Str(said(args, iid_key(args))),
            ]);
        }
    }
}

/// A field of an object, where there is one.
pub open spec fn inside(v: JsonView, key: Seq<char>) -> JsonView {
    match v {
        JsonView::Object(m) => if m.dom().contains(key) {
            m[key]
        } else {
            JsonView::Null
        },
        _ => JsonView::Null,
    }
}

/// The global id of the work item that was found goes into the variables; one that was
/// not found is named.
pub proof fn law_work_items_are_found(
    executor: Executor,
    reg: Registry,
    entry: Arc<ToolEntry>,
    args: Args,
    resolved: Args,
    path: Seq<char>,
    iid: Seq<char>,
    resp: ResponseView,
    e: ErrorView,
    now: nat,
)
    ensures
        ({
            let task = TaskView { entry, args, stage: StageView::WorkItem { resolved, path, iid } };
            let next = executor.resumed(reg, task, Ok(resp), now);
            let id = inside(
                inside(inside(inside(resp.body, "data"@), "namespace"@), "workItem"@),
                "id"@,
            );
            &&& executor.resumed(reg, task, Err(e), now) == StepView::Done(Err(e.text()))
            &&& id is Str ==> next == work_item_done(
                entry,
                args,
                resolved.insert("__work_item_gid"@, id),
            )
            &&& !(id is Str) ==> next == StepView::Done(
                Err("work item #"@ + iid + " was not found in "@ + path),
            )
        }),
{
}

/// The type of work item that is wanted: an issue unless told.
pub open spec fn type_wanted(args: Args) -> Seq<char> {
    let key = if args.dom().contains("type"@) {
        "type"@
    } else {
        "new_type"@
    };
    if args.dom().contains(key) && args[key] is Str {
        args[key]->Str_0
    } else {
        "issue"@
    }
}

/// Where a variable is made of a work item type, the types of the project are asked for;
/// where none is, the document is sent.
pub proof fn law_types_are_asked_for(
    entry: Arc<ToolEntry>,
    args: Args,
    resolved: Args,
    name: Seq<char>,
)
    ensures
        (forall|n: Seq<char>| !#[trigger] made_by(entry, n, "work_item_type_gid"@))
            ==> work_item_done(entry, args, resolved) == query_sent(entry, args, resolved),
        made_by(entry, name, "work_item_type_gid"@) ==> {
            let next = work_item_done(entry, args, resolved);
            let located = resolved.dom().contains("project_id"@) && resolved["project_id"@] is Str;
            &&& !located ==> next == StepView::Done(
                Err("the project path could not be resolved"@),
            )
            &&& located ==> {
                let path = resolved["project_id"@]->Str_0;
                &&& next is Send
                &&& next->Send_1 == (TaskView {
                    entry,
                    args,
                    stage: StageView::WorkItemType { resolved, path, wanted: type_wanted(args) },
                })
                &&& next->Send_0 is Graphql
                &&& next->Send_0->document
                    == "query($path: ID!) { namespace(fullPath: $path) { workItemTypes { nodes { id name } } } }"@
                &&& next->Send_0->variables is Object
                &&& next->Send_0->variables->Object_0 == map!["path"@ => JsonView::Str(path)]
            }
        },
{
    lemma_uses(entry, "work_item_type_gid"@);
    if made_by(entry, name, "work_item_type_gid"@) && resolved.dom().contains("project_id"@)
        && resolved["project_id"@] is Str {
        let next = work_item_done(entry, args, resolved);
        assert(next->Send_0->variables->Object_0 =~= map!["path"@ => resolved["project_id"@]]);
    }
}

/// Whether a type has the wanted name, in any case and with spaces for underscores.
pub open spec fn is_type(node: JsonView, wanted: Seq<char>) -> bool {
    inside(node, "name"@) is Str && ascii_lower(inside(node, "name"@)->Str_0) == ascii_lower(
        replace_all(wanted, "_"@, " "@),
    )
}

proof fn lemma_type(nodes: Seq<JsonView>, wanted: Seq<char>, from: int, i: int)
    requires
        0 <= from <= i <= nodes.len(),
        forall|j: int| from <= j < i ==> !is_type(#[trigger] nodes[j], wanted),
        i < nodes.len() ==> is_type(nodes[i], wanted),
    ensures
        type_from(nodes, replace_all(wanted, "_"@, " "@), from) == (if i < nodes.len() {
            Some(i)
        } else {
            None
        }),
    decreases i - from,
{
    if from < i {
        assert(!is_type(nodes[from], wanted));
        lemma_type(nodes, wanted, from + 1, i);
    }
}

/// The global id of the first type of the wanted name goes into the variables. A type
/// that the project does not have is named, with those that it has.
pub proof fn law_types_are_found(
    executor: Executor,
    reg: Registry,
    entry: Arc<ToolEntry>,
    args: Args,
    resolved: Args,
    path: Seq<char>,
    wanted: Seq<char>,
    resp: ResponseView,
    e: ErrorView,
    i: int,
    now: nat,
)
    ensures
        ({
            let task = TaskView {
                entry,
                args,
                stage: StageView::WorkItemType { resolved, path, wanted },
            };
            let next = executor.resumed(reg, task, Ok(resp), now);
            let list = inside(
                inside(inside(inside(resp.body, "data"@), "namespace"@), "workItemTypes"@),
                "nodes"@,
            );
            &&& executor.resumed(reg, task, Err(e), now) == StepView::Done(Err(e.text()))
            &&& !(list is Array) ==> next == StepView::Done(
                Err(path + " exposes no work item types"@),
            )
            &&& list matches JsonView::Array(nodes) ==> {
                &&& 0 <= i < nodes.len() && is_type(nodes[i], wanted) && (forall|j: int|
                    0 <= j < i ==> !is_type(#[trigger] nodes[j], wanted)) && inside(
                    nodes[i],
                    "id"@,
                ) is Str ==> next == query_sent(
                    entry,
                    args,
                    resolved.insert("__work_item_type_gid"@, inside(nodes[i], "id"@)),
                )
                &&& (forall|j: int| 0 <= j < nodes.len() ==> !is_type(#[trigger] nodes[j], wanted))
                    ==> next == StepView::Done(
                    Err(
                        "unknown work item type "@ + quote(wanted) + "; "@ + path + " offers: "@
                            + join(field_texts(nodes, "name"@), ", "@),
                    ),
                )
            }
        }),
{
    let list = inside(
        inside(inside(inside(resp.body, "data"@), "namespace"@), "workItemTypes"@),
        "nodes"@,
    );
    if let JsonView::Array(nodes) = list {
        if 0 <= i < nodes.len() && is_type(nodes[i], wanted) && (forall|j: int|
            0 <= j < i ==> !is_type(#[trigger] nodes[j], wanted)) {
            lemma_type(nodes, wanted, 0, i);
        }
        if forall|j: int| 0 <= j < nodes.len() ==> !is_type(#[trigger] nodes[j], wanted) {
            lemma_type(nodes, wanted, 0, nodes.len() as int);
        }
    }
}

// --------------------------------------------------------------- variables

/// The argument that a variable is made of, where it is given and not `null`.
pub open spec fn raw_of(src: VariableSource, args: Args) -> Option<JsonView> {
    if src.from is Some && args.dom().contains(src.from->0@) && !(args[src.from->0@] is Null) {
        Some(args[src.from->0@])
    } else {
        None
    }
}

/// A variable has its fixed value, where it has one. Otherwise it is what its transform
/// makes of its argument, or, without one, the argument itself, or the default.
pub proof fn law_variables(src: VariableSource, args: Args, resolved: Args)
    ensures
        src.value matches Some(fixed) ==> variable_value(src, args, resolved) == Ok::<
            Option<JsonView>,
            Seq<char>,
        >(Some(fixed@)),
        src.value is None && src.transform is None ==> ({
            let raw = raw_of(src, args);
            &&& raw is Some ==> variable_value(src, args, resolved) == Ok::<
                Option<JsonView>,
                Seq<char>,
            >(raw)
            &&& raw is None && src.default is Some ==> variable_value(src, args, resolved) == Ok::<
                Option<JsonView>,
                Seq<char>,
            >(Some(src.default->0@))
            &&& raw is None && src.default is None ==> variable_value(src, args, resolved) == Ok::<
                Option<JsonView>,
                Seq<char>,
            >(None)
        }),
        src.value is None && src.transform is Some ==> variable_value(src, args, resolved)
            == transformed(
            src.transform->0@,
            raw_of(src, args),
            args,
            resolved,
            match src.from {
                Some(f) => Some(f@),
                None => None,
            },
            match src.default {
                Some(d) => Some(d@),
                None => None,
            },
        ),
{
}

/// The variables of a document are those that have a value, each under its name; the
/// first one that cannot be made ends the call.
pub proof fn law_documents_get_their_variables(
    sources: Map<Seq<char>, VariableSource>,
    names: Seq<Seq<char>>,
    name: Seq<char>,
    args: Args,
    resolved: Args,
)
    ensures
        variables(sources, args, resolved) == variables_named(
            sources,
            in_order(sources.dom()),
            args,
            resolved,
        ),
        variables_named(sources, Seq::<Seq<char>>::empty(), args, resolved) == Ok::<
            Map<Seq<char>, JsonView>,
            Seq<char>,
        >(Map::<Seq<char>, JsonView>::empty()),
        ({
            let head = variables_named(sources, names, args, resolved);
            let more = variables_named(sources, names.push(name), args, resolved);
            match head {
                Err(e) => more == Err::<Map<Seq<char>, JsonView>, Seq<char>>(e),
                Ok(m) => match variable_value(sources[name], args, resolved) {
                    Err(e) => more == Err::<Map<Seq<char>, JsonView>, Seq<char>>(e),
                    Ok(Some(v)) => more == Ok::<Map<Seq<char>, JsonView>, Seq<char>>(
                        m.insert(name, v),
                    ),
                    Ok(None) => more == Ok::<Map<Seq<char>, JsonView>, Seq<char>>(m),
                },
            }
        }),
{
    assert(names.push(name).drop_last() =~= names);
    assert(names.push(name).last() == name);
}

proof fn lemma_transforms()
    ensures
        "resolved_full_path"@.len() == 18,
        "resolved_full_path"@[0] == 'r',
        "string"@.len() == 6,
        "state_passthrough"@.len() == 17,
        "state_passthrough"@[0] == 's',
        "work_item_type_enum"@.len() == 19,
        "work_item_type_enums"@.len() == 20,
        "work_item_gid"@.len() == 13,
        "work_item_type_gid"@.len() == 18,
        "work_item_type_gid"@[0] == 'w',
        "issue_gid_from_work_item"@.len() == 24,
        "timeline_event_create_input"@.len() == 27,
        "timeline_event_create_input"@[0] == 't',
        "min_100"@.len() == 7,
        "upper_single_array"@.len() == 18,
        "upper_single_array"@[0] == 'u',
        "vulnerability_gid"@.len() == 17,
        "vulnerability_gid"@[0] == 'v',
        "dependency_proxy_settings_input"@.len() == 31,
        "vulnerability_dismiss_input"@.len() == 27,
        "vulnerability_dismiss_input"@[0] == 'v',
        "vulnerability_dismiss_input"@[14] == 'd',
        "vulnerability_confirm_input"@.len() == 27,
        "vulnerability_confirm_input"@[0] == 'v',
        "vulnerability_confirm_input"@[14] == 'c',
{
    reveal_strlit("resolved_full_path");
    reveal_strlit("string");
    reveal_strlit("state_passthrough");
    reveal_strlit("work_item_type_enum");
    reveal_strlit("work_item_type_enums");
    reveal_strlit("work_item_gid");
    reveal_strlit("work_item_type_gid");
    reveal_strlit("issue_gid_from_work_item");
    reveal_strlit("timeline_event_create_input");
    reveal_strlit("min_100");
    reveal_strlit("upper_single_array");
    reveal_strlit("vulnerability_gid");
    reveal_strlit("dependency_proxy_settings_input");
    reveal_strlit("vulnerability_dismiss_input");
    reveal_strlit("vulnerability_confirm_input");
}

/// A value for a variable.
pub open spec fn made(v: JsonView) -> Result<Option<JsonView>, Seq<char>> {
    Ok(Some(v))
}

/// No value for a variable.
pub open spec fn unmade() -> Result<Option<JsonView>, Seq<char>> {
    Ok(None)
}

/// A full path is the one that was looked up, else the argument, else the default. A
/// string is the text of a scalar, else the default. A state is passed on as it is.
pub proof fn law_passed_values(
    raw: Option<JsonView>,
    args: Args,
    resolved: Args,
    from: Seq<char>,
    default: Option<JsonView>,
)
    ensures
        ({
            let full = transformed("resolved_full_path"@, raw, args, resolved, Some(from), default);
            let loose = transformed("resolved_full_path"@, raw, args, resolved, None, default);
            let text = transformed("string"@, raw, args, resolved, Some(from), default);
            let state = transformed("state_passthrough"@, raw, args, resolved, Some(from), default);
            let passed = if raw is Some {
                raw
            } else {
                default
            };
            &&& resolved.dom().contains(from) ==> full == made(resolved[from])
            &&& !resolved.dom().contains(from) ==> full == Ok::<Option<JsonView>, Seq<char>>(passed)
            &&& loose == Ok::<Option<JsonView>, Seq<char>>(passed)
            &&& state == Ok::<Option<JsonView>, Seq<char>>(passed)
            &&& raw is Some && raw->0.scalar() is Some ==> text == made(
                JsonView::Str(raw->0.scalar()->0),
            )
            &&& raw is None || raw->0.scalar() is None ==> text == Ok::<
                Option<JsonView>,
                Seq<char>,
            >(default)
        }),
{
    lemma_transforms();
}

/// Enums are in capitals: one by itself, one as a list of one, or several.
pub proof fn law_enums(
    raw: Option<JsonView>,
    args: Args,
    resolved: Args,
    from: Option<Seq<char>>,
    default: Option<JsonView>,
)
    ensures
        ({
            let one = transformed("work_item_type_enum"@, raw, args, resolved, from, default);
            let single = transformed("upper_single_array"@, raw, args, resolved, from, default);
            let several = transformed("work_item_type_enums"@, raw, args, resolved, from, default);
            &&& raw matches Some(JsonView::Str(s)) ==> one == made(JsonView::Str(uppercase(s)))
                && single == made(JsonView::Array(seq![JsonView::Str(uppercase(s))]))
            &&& !(raw is Some && raw->0 is Str) ==> one == unmade() && single == unmade()
            &&& raw matches Some(JsonView::Array(items)) ==> several == made(
                JsonView::Array(
                    texts(items).map_values(|t: Seq<char>| JsonView::Str(uppercase(t))),
                ),
            )
            &&& !(raw is Some && raw->0 is Array) ==> several == unmade()
        }),
{
    lemma_transforms();
    if let Some(JsonView::Array(items)) = raw {
        let several = transformed("work_item_type_enums"@, raw, args, resolved, from, default);
        assert(several->Ok_0->0->Array_0 =~= texts(items).map_values(
            |t: Seq<char>| JsonView::Str(uppercase(t)),
        ));
    }
}

/// The global ids that were found are passed on; that of an issue is the one of its work
/// item, under the name of an issue.
pub proof fn law_global_ids(
    raw: Option<JsonView>,
    args: Args,
    resolved: Args,
    from: Option<Seq<char>>,
    default: Option<JsonView>,
)
    ensures
        ({
            let item = transformed("work_item_gid"@, raw, args, resolved, from, default);
            let kind = transformed("work_item_type_gid"@, raw, args, resolved, from, default);
            let issue = transformed("issue_gid_from_work_item"@, raw, args, resolved, from, default);
            let a = "__work_item_gid"@;
            let b = "__work_item_type_gid"@;
            &&& resolved.dom().contains(a) ==> item == made(resolved[a])
            &&& !resolved.dom().contains(a) ==> item == unmade()
            &&& resolved.dom().contains(b) ==> kind == made(resolved[b])
            &&& !resolved.dom().contains(b) ==> kind == unmade()
            &&& resolved.dom().contains(a) && resolved[a] is Str ==> issue == made(
                JsonView::Str(replace_all(resolved[a]->Str_0, "/WorkItem/"@, "/Issue/"@)),
            )
            &&& !(resolved.dom().contains(a) && resolved[a] is Str) ==> issue == unmade()
        }),
{
    lemma_transforms();
}

/// A page size is the one that is asked for, else the default, else twenty, and never
/// more than a hundred.
pub proof fn law_page_sizes(
    raw: Option<JsonView>,
    args: Args,
    resolved: Args,
    from: Option<Seq<char>>,
    default: Option<JsonView>,
    n: u64,
)
    ensures
        ({
            let size = transformed("min_100"@, raw, args, resolved, from, default);
            let asked = raw is Some && raw->0.unsigned() is Some;
            let set = default is Some && default->0.unsigned() is Some;
            let wanted = if asked {
                raw->0.unsigned()->0
            } else if set {
                default->0.unsigned()->0
            } else {
                20u64
            };
            &&& wanted <= 100 ==> size == made(JsonView::Number(NumberView::Unsigned(wanted)))
            &&& wanted > 100 ==> size == made(JsonView::Number(NumberView::Unsigned(100)))
        }),
{
    lemma_transforms();
}

/// A vulnerability is named by its number or by its global id, and by nothing else.
pub proof fn law_vulnerabilities(
    raw: Option<JsonView>,
    args: Args,
    resolved: Args,
    from: Option<Seq<char>>,
    default: Option<JsonView>,
)
    ensures
        ({
            let gid = transformed("vulnerability_gid"@, raw, args, resolved, from, default);
            let named = raw is Some && raw->0.scalar() is Some;
            &&& !named ==> gid == Err::<Option<JsonView>, Seq<char>>(
                "vulnerability_id is required"@,
            )
            &&& named ==> {
                let id = raw->0.scalar()->0;
                &&& numbered(id) ==> gid == made(
                    JsonView::Str("gid://gitlab/Vulnerability/"@ + id),
                )
                &&& "gid://gitlab/Vulnerability/"@.is_prefix_of(id) && !numbered(id) ==> gid == made(
                    JsonView::Str(id),
                )
                &&& !numbered(id) && !"gid://gitlab/Vulnerability/"@.is_prefix_of(id) ==> gid
                    == Err::<Option<JsonView>, Seq<char>>(
                    "vulnerability_id must be a number or a gid://gitlab/Vulnerability/<n>, got "@
                        + quote(id),
                )
            }
        }),
{
    lemma_transforms();
    if raw is Some && raw->0.scalar() is Some {
        let id = raw->0.scalar()->0;
        assert(crate::text::all_digits(id) == forall|i: int|
            0 <= i < id.len() ==> '0' <= #[trigger] id[i] <= '9');
    }
}

/// A row of at least one digit.
pub open spec fn numbered(id: Seq<char>) -> bool {
    id.len() > 0 && forall|i: int| 0 <= i < id.len() ==> '0' <= #[trigger] id[i] <= '9'
}

/// A vulnerability is dismissed for a reason, in capitals, and confirmed without one. A
/// comment is passed on where it says something.
pub proof fn law_vulnerability_changes(
    raw: Option<JsonView>,
    args: Args,
    resolved: Args,
    from: Option<Seq<char>>,
    default: Option<JsonView>,
    key: Seq<char>,
)
    ensures
        ({
            let gid = transformed("vulnerability_gid"@, raw, args, resolved, from, default);
            let confirm = transformed(
                "vulnerability_confirm_input"@,
                raw,
                args,
                resolved,
                from,
                default,
            );
            let dismiss = transformed(
                "vulnerability_dismiss_input"@,
                raw,
                args,
                resolved,
                from,
                default,
            );
            let reason = args.dom().contains("reason"@) && args["reason"@] is Str;
            let comment = args.dom().contains("comment"@) && args["comment"@] is Str
                && args["comment"@]->Str_0.len() > 0;
            &&& gid matches Err(e) ==> confirm == Err::<Option<JsonView>, Seq<char>>(e) && dismiss
                == Err::<Option<JsonView>, Seq<char>>(e)
            &&& gid matches Ok(Some(id)) ==> {
                &&& confirm is Ok
                &&& confirm->Ok_0 is Some
                &&& confirm->Ok_0->0 is Object
                &&& ({
                    let m = confirm->Ok_0->0->Object_0;
                    &&& m.dom().contains(key) <==> key == "id"@ || (key == "comment"@ && comment)
                    &&& m["id"@] == id
                    &&& comment ==> m["comment"@] == args["comment"@]
                })
                &&& !reason ==> dismiss == Err::<Option<JsonView>, Seq<char>>(
                    "reason is required"@,
                )
                &&& reason ==> {
                    &&& dismiss is Ok
                    &&& dismiss->Ok_0 is Some
                    &&& dismiss->Ok_0->0 is Object
                    &&& ({
                        let m = dismiss->Ok_0->0->Object_0;
                        &&& m.dom().contains(key) <==> key == "id"@ || key == "dismissalReason"@ || (
                        key == "comment"@ && comment)
                        &&& m["id"@] == id
                        &&& m["dismissalReason"@] == JsonView::Str(
                            uppercase(args["reason"@]->Str_0),
                        )
                        &&& comment ==> m["comment"@] == args["comment"@]
                    })
                }
            }
        }),
{
    lemma_transforms();
    reveal_strlit("id");
    reveal_strlit("comment");
    reveal_strlit("dismissalReason");
    assert("id"@.len() == 2 && "comment"@.len() == 7 && "dismissalReason"@.len() == 15);
}

/// A timeline event belongs to the issue of the work item that was found. It has the
/// note that is given, and the time and the tags where they are.
pub proof fn law_timeline_events(
    raw: Option<JsonView>,
    args: Args,
    resolved: Args,
    from: Option<Seq<char>>,
    default: Option<JsonView>,
    key: Seq<char>,
)
    ensures
        ({
            let gid = "__work_item_gid"@;
            let event = transformed(
                "timeline_event_create_input"@,
                raw,
                args,
                resolved,
                from,
                default,
            );
            let found = resolved.dom().contains(gid) && resolved[gid] is Str;
            let time = args.dom().contains("occurred_at"@) && !(args["occurred_at"@] is Null);
            let tags = args.dom().contains("tag_names"@) && !(args["tag_names"@] is Null);
            &&& !found ==> event == Err::<Option<JsonView>, Seq<char>>(
                "the incident could not be resolved"@,
            )
            &&& found && !args.dom().contains("note"@) ==> event == Err::<
                Option<JsonView>,
                Seq<char>,
            >("note is required"@)
            &&& found && args.dom().contains("note"@) ==> {
                &&& event is Ok
                &&& event->Ok_0 is Some
                &&& event->Ok_0->0 is Object
                &&& ({
                    let m = event->Ok_0->0->Object_0;
                    &&& m.dom().contains(key) <==> key == "incidentId"@ || key == "note"@ || (key
                        == "occurredAt"@ && time) || (key == "tagNames"@ && tags)
                    &&& m["incidentId"@] == JsonView::Str(
                        replace_all(resolved[gid]->Str_0, "/WorkItem/"@, "/Issue/"@),
                    )
                    &&& m["note"@] == args["note"@]
                    &&& time ==> m["occurredAt"@] == args["occurred_at"@]
                    &&& tags ==> m["tagNames"@] == args["tag_names"@]
                })
            }
        }),
{
    lemma_transforms();
    reveal_strlit("incidentId");
    reveal_strlit("note");
    reveal_strlit("occurredAt");
    reveal_strlit("tagNames");
    assert("incidentId"@.len() == 10 && "note"@.len() == 4 && "occurredAt"@.len() == 10);
    assert("tagNames"@.len() == 8);
    assert("incidentId"@[0] == 'i' && "occurredAt"@[0] == 'o');
}

/// The settings of a dependency proxy are those of a group, by its full path where that
/// was looked up. What is changed is what is given; at least one thing has to be.
pub proof fn law_proxy_settings(
    raw: Option<JsonView>,
    args: Args,
    resolved: Args,
    from: Seq<char>,
    default: Option<JsonView>,
    key: Seq<char>,
)
    ensures
        ({
            let input = transformed(
                "dependency_proxy_settings_input"@,
                raw,
                args,
                resolved,
                Some(from),
                default,
            );
            let found = resolved.dom().contains(from);
            let enabled = args.dom().contains("enabled"@) && !(args["enabled"@] is Null);
            let identity = args.dom().contains("identity"@) && !(args["identity"@] is Null);
            let secret = args.dom().contains("secret"@) && !(args["secret"@] is Null);
            &&& !found && raw is None ==> input == Err::<Option<JsonView>, Seq<char>>(
                "group_id is required"@,
            )
            &&& (found || raw is Some) && !enabled && !identity && !secret ==> input == Err::<
                Option<JsonView>,
                Seq<char>,
            >("At least one of enabled, identity, or secret must be provided"@)
            &&& (found || raw is Some) && (enabled || identity || secret) ==> {
                &&& input is Ok
                &&& input->Ok_0 is Some
                &&& input->Ok_0->0 is Object
                &&& ({
                    let m = input->Ok_0->0->Object_0;
                    &&& m.dom().contains(key) <==> key == "groupPath"@ || (key == "enabled"@
                        && enabled) || (key == "identity"@ && identity) || (key == "secret"@
                        && secret)
                    &&& found ==> m["groupPath"@] == resolved[from]
                    &&& !found ==> m["groupPath"@] == raw->0
                    &&& enabled ==> m["enabled"@] == args["enabled"@]
                    &&& identity ==> m["identity"@] == args["identity"@]
                    &&& secret ==> m["secret"@] == args["secret"@]
                })
            }
        }),
{
    lemma_transforms();
    reveal_strlit("groupPath");
    reveal_strlit("enabled");
    reveal_strlit("identity");
    reveal_strlit("secret");
    assert("groupPath"@.len() == 9 && "enabled"@.len() == 7 && "identity"@.len() == 8);
    assert("secret"@.len() == 6);
}

/// A transform that is not known is named.
pub proof fn law_unknown_transforms(
    name: Seq<char>,
    raw: Option<JsonView>,
    args: Args,
    resolved: Args,
    from: Option<Seq<char>>,
    default: Option<JsonView>,
)
    requires
        name.len() > 31,
    ensures
        transformed(name, raw, args, resolved, from, default) == Err::<
            Option<JsonView>,
            Seq<char>,
        >("unknown variable transform "@ + quote(name)),
{
    lemma_transforms();
}

} // verus!
