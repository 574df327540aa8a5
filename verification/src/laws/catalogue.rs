//! Laws of the tools that there are: which of them are offered, what is told of them,
//! and how a call reaches the one that it names.

use crate::args::Args;
use crate::config::{Config, SelectionView};
use crate::exec::{Executor, categories_result, composite_begun, implemented, local_result, opened};
use crate::flow::StepView;
use crate::graphql::graphql_begun;
use crate::interop::json_print;
use crate::json::JsonView;
use crate::laws::waits::{given, said};
use crate::number::NumberView;
use crate::registry::{Endpoint, Kind, Registry, ToolEntry, ToolMeta, Toolset, catalogue,
    first_categories, holds, mapped, selected_ids};
use crate::rest::rest_begun;
use crate::server::{GitLabMcp, hidden_ids, instructions_for, listing_of, result_text};
use crate::strmap::{ascending, in_order, lemma_in_order};
use crate::pattern::regex_matches;
use crate::text::{decimal, join};
use crate::unicode::quote;
use std::sync::Arc;
use vstd::prelude::*;
use vstd::string::*;

verus! {

// ----------------------------------------------------------------- loading

/// A catalogue can be loaded just when every tool has an endpoint; otherwise the first
/// one that has none is named.
pub proof fn law_every_tool_is_mapped(
    tools: Seq<ToolMeta>,
    endpoints: Map<Seq<char>, Arc<Endpoint>>,
    i: int,
)
    ensures
        mapped(tools, endpoints) == tools.len() <==> forall|j: int|
            0 <= j < tools.len() ==> endpoints.dom().contains(#[trigger] tools[j].name@),
        0 <= i < tools.len() && !endpoints.dom().contains(tools[i].name@) && (forall|j: int|
            0 <= j < i ==> endpoints.dom().contains(#[trigger] tools[j].name@)) ==> mapped(
            tools,
            endpoints,
        ) == i,
    decreases tools.len(),
{
    if tools.len() > 0 {
        let head = tools.drop_last();
        law_every_tool_is_mapped(head, endpoints, i);
        assert(forall|j: int| 0 <= j < head.len() ==> #[trigger] head[j] == tools[j]);
        assert(tools[tools.len() - 1] == tools.last());
        if mapped(tools, endpoints) == tools.len() {
            assert(mapped(head, endpoints) <= head.len()) by {
                lemma_mapped_bound(head, endpoints);
            }
            assert forall|j: int| 0 <= j < tools.len() implies endpoints.dom().contains(
                #[trigger] tools[j].name@,
            ) by {
                if j < head.len() {
                    assert(head[j] == tools[j]);
                    assert(endpoints.dom().contains(head[j].name@));
                }
            }
        }
        if forall|j: int|
            0 <= j < tools.len() ==> endpoints.dom().contains(#[trigger] tools[j].name@) {
            assert forall|j: int| 0 <= j < head.len() implies endpoints.dom().contains(
                #[trigger] head[j].name@,
            ) by {
                assert(head[j] == tools[j]);
                assert(endpoints.dom().contains(tools[j].name@));
            }
            assert(endpoints.dom().contains(tools[tools.len() - 1].name@));
        }
        if 0 <= i < tools.len() && !endpoints.dom().contains(tools[i].name@) && (forall|j: int|
            0 <= j < i ==> endpoints.dom().contains(#[trigger] tools[j].name@)) {
            assert forall|j: int| 0 <= j < i implies endpoints.dom().contains(
                #[trigger] head[j].name@,
            ) by {
                assert(head[j] == tools[j]);
                assert(endpoints.dom().contains(tools[j].name@));
            }
        }
    }
}

proof fn lemma_mapped_bound(tools: Seq<ToolMeta>, endpoints: Map<Seq<char>, Arc<Endpoint>>)
    ensures
        mapped(tools, endpoints) <= tools.len(),
    decreases tools.len(),
{
    if tools.len() > 0 {
        lemma_mapped_bound(tools.drop_last(), endpoints);
    }
}

proof fn lemma_catalogue(
    tools: Seq<ToolMeta>,
    endpoints: Map<Seq<char>, Arc<Endpoint>>,
    name: Seq<char>,
    i: int,
)
    ensures
        0 <= i < tools.len() && tools[i].name@ == name && (forall|j: int|
            i < j < tools.len() ==> #[trigger] tools[j].name@ != name) ==> {
            let all = catalogue(tools, endpoints);
            all.dom().contains(name) && all[name].meta == tools[i] && all[name].endpoint
                == endpoints[name]
        },
        (forall|j: int| 0 <= j < tools.len() ==> #[trigger] tools[j].name@ != name)
            ==> !catalogue(tools, endpoints).dom().contains(name),
    decreases tools.len(),
{
    if tools.len() > 0 {
        let head = tools.drop_last();
        lemma_catalogue(head, endpoints, name, i);
        assert(forall|j: int| 0 <= j < head.len() ==> #[trigger] head[j] == tools[j]);
        assert(tools[tools.len() - 1] == tools.last());
        if 0 <= i < tools.len() - 1 {
            assert(head[i] == tools[i]);
        }
    }
}

/// Every tool is found under its name, with the endpoint of that name, and nothing else
/// is; where a name comes twice, the later tool counts.
pub proof fn law_tools_are_found(
    table: Map<Seq<char>, Arc<ToolEntry>>,
    tools: Seq<ToolMeta>,
    endpoints: Map<Seq<char>, Arc<Endpoint>>,
    name: Seq<char>,
    i: int,
)
    requires
        holds(table, catalogue(tools, endpoints)),
    ensures
        0 <= i < tools.len() && tools[i].name@ == name && (forall|j: int|
            i < j < tools.len() ==> #[trigger] tools[j].name@ != name) ==> {
            &&& table.dom().contains(name)
            &&& table[name].meta == tools[i]
            &&& table[name].endpoint == endpoints[name]
        },
        (forall|j: int| 0 <= j < tools.len() ==> #[trigger] tools[j].name@ != name)
            ==> !table.dom().contains(name),
{
    lemma_catalogue(tools, endpoints, name, i);
}

/// Whether the settings ask for a category by itself: by naming it, by asking for all,
/// or, where nothing is said, by leaving it to the defaults.
pub open spec fn asked_for(selection: SelectionView, set: Toolset) -> bool {
    ||| selection is All
    ||| selection is Defaults && set.is_default
    ||| selection matches SelectionView::Explicit(ids) && ids.contains(set.id@)
}

proof fn lemma_selected(selection: SelectionView, sets: Seq<Toolset>, id: Seq<char>)
    ensures
        selected_ids(selection, sets).contains(id) <==> exists|i: int|
            0 <= i < sets.len() && #[trigger] sets[i].id@ == id && asked_for(selection, sets[i]),
    decreases sets.len(),
{
    if sets.len() > 0 {
        let head = sets.drop_last();
        lemma_selected(selection, head, id);
        assert(forall|j: int| 0 <= j < head.len() ==> #[trigger] head[j] == sets[j]);
        let last = sets.len() - 1;
        assert(sets[last] == sets.last());
        if selected_ids(selection, head).contains(id) {
            let i = choose|i: int|
                0 <= i < head.len() && #[trigger] head[i].id@ == id && asked_for(
                    selection,
                    head[i],
                );
            assert(sets[i].id@ == id && asked_for(selection, sets[i]));
        }
        if exists|i: int|
            0 <= i < sets.len() && #[trigger] sets[i].id@ == id && asked_for(selection, sets[i]) {
            let i = choose|i: int|
                0 <= i < sets.len() && #[trigger] sets[i].id@ == id && asked_for(
                    selection,
                    sets[i],
                );
            if i < head.len() {
                assert(head[i].id@ == id && asked_for(selection, head[i]));
            }
        }
    }
}

/// The categories at startup are the ones that the settings ask for, that of the
/// server's own tools, and the ones whose own switch is on, and no others.
pub proof fn law_categories_at_startup(cfg: Config, sets: Seq<Toolset>, id: Seq<char>)
    ensures
        first_categories(cfg, sets).contains(id) <==> {
            ||| id == "core"@
            ||| id == "wiki"@ && cfg.use_wiki
            ||| id == "milestones"@ && cfg.use_milestone
            ||| id == "pipelines"@ && cfg.use_pipeline
            ||| exists|i: int|
                0 <= i < sets.len() && #[trigger] sets[i].id@ == id && asked_for(
                    cfg.toolsets@,
                    sets[i],
                )
        },
{
    lemma_selected(cfg.toolsets@, sets, id);
}

// ---------------------------------------------------------------- offering

/// Whether a name is denied by the pattern of the settings.
pub open spec fn is_denied(reg: Registry, name: Seq<char>) -> bool {
    reg.banned() matches Some(pattern) && regex_matches(pattern, name)
}

/// A tool may be called just when its category is exposed, its name is not denied, and,
/// where nothing may be changed, it changes nothing.
pub proof fn law_what_may_be_called(reg: Registry, entry: &ToolEntry, denied: bool)
    ensures
        reg.callable(entry) <==> {
            &&& reg.exposed().contains(entry.endpoint.category@)
            &&& !is_denied(reg, entry.meta.name@)
            &&& entry.endpoint.read_only || !reg.guarded()
        },
        reg.open_to(entry, denied) <==> {
            &&& reg.exposed().contains(entry.endpoint.category@)
            &&& !denied
            &&& entry.endpoint.read_only || !reg.guarded()
        },
{
}

/// Tools are listed in the order of their names: each one that may be called, once.
pub proof fn law_listed_by_name(reg: Registry, names: Seq<Seq<char>>, name: Seq<char>)
    ensures
        ascending(names) && names.to_set() == reg.tools().dom() ==> reg.listing() == reg.offered(
            names,
        ),
        reg.offered(Seq::<Seq<char>>::empty()).len() == 0,
        reg.callable(&*reg.tools()[name]) ==> reg.offered(names.push(name)) == reg.offered(
            names,
        ).push(reg.tools()[name]),
        !reg.callable(&*reg.tools()[name]) ==> reg.offered(names.push(name)) == reg.offered(names),
{
    if ascending(names) && names.to_set() == reg.tools().dom() {
        lemma_in_order(names);
    }
    assert(names.push(name).drop_last() =~= names);
    assert(names.push(name).last() == name);
}

/// What the client is told of a tool is what the catalogue says of it. A call may be
/// repeated where it reads, replaces or deletes.
pub proof fn law_what_is_told_of_a_tool(entry: &ToolEntry)
    ensures
        listing_of(entry).name == entry.meta.name@,
        listing_of(entry).description == entry.meta.description@,
        listing_of(entry).input_schema == entry.meta.input_schema.fields(),
        listing_of(entry).read_only == entry.endpoint.read_only,
        listing_of(entry).destructive == entry.endpoint.destructive,
        listing_of(entry).open_world,
        listing_of(entry).idempotent <==> entry.endpoint.method is Some && (
        entry.endpoint.method->0@ == "GET"@ || entry.endpoint.method->0@ == "PUT"@
            || entry.endpoint.method->0@ == "DELETE"@),
{
}

/// The model is told how many tools are active, whether anything can be changed, and
/// which categories are left to ask for.
pub proof fn law_what_the_model_is_told(
    reg: Registry,
    sets: Seq<Toolset>,
    set: Toolset,
    exposed: Set<Seq<char>>,
)
    ensures
        hidden_ids(Seq::<Toolset>::empty(), exposed).len() == 0,
        exposed.contains(set.id@) ==> hidden_ids(sets.push(set), exposed) == hidden_ids(
            sets,
            exposed,
        ),
        !exposed.contains(set.id@) ==> hidden_ids(sets.push(set), exposed) == hidden_ids(
            sets,
            exposed,
        ).push(set.id@),
        ({
            let told = instructions_for(reg);
            let hidden = hidden_ids(reg.categories(), reg.exposed());
            let head = "GitLab API access. "@ + decimal(reg.listing().len())
                + " tools are active. Project arguments accept either a numeric id or a URL-encoded path such as group/subgroup/project."@;
            let bound =
                " The server runs in read-only mode, so no tool can change GitLab state."@;
            let more = " Further categories are available on request via discover_tools: "@ + join(
                hidden,
                ", "@,
            ) + "."@;
            &&& !reg.guarded() && hidden.len() == 0 ==> told == head
            &&& reg.guarded() && hidden.len() == 0 ==> told == head + bound
            &&& !reg.guarded() && hidden.len() > 0 ==> told == head + more
            &&& reg.guarded() && hidden.len() > 0 ==> told == head + bound + more
        }),
{
    assert(sets.push(set).drop_last() =~= sets);
    assert(sets.push(set).last() == set);
    let hidden = hidden_ids(reg.categories(), reg.exposed());
    if hidden.len() > 0 {
        let told = instructions_for(reg);
        let head = "GitLab API access. "@ + decimal(reg.listing().len())
            + " tools are active. Project arguments accept either a numeric id or a URL-encoded path such as group/subgroup/project."@;
        let bound = " The server runs in read-only mode, so no tool can change GitLab state."@;
        let more = " Further categories are available on request via discover_tools: "@ + join(
            hidden,
            ", "@,
        ) + "."@;
        if reg.guarded() {
            assert(told =~= head + bound + more);
        } else {
            assert(told =~= head + more);
        }
    }
}

// --------------------------------------------------------------- discovery

/// A call that exposes a category exposes that one beside the others, and changes
/// nothing else; any other call changes nothing at all.
pub proof fn law_exposing_adds_one(
    before: Registry,
    after: Registry,
    category: Seq<char>,
    id: Seq<char>,
)
    ensures
        opened(before, after, Some(category)) ==> {
            &&& after.exposed().contains(id) <==> before.exposed().contains(id) || id == category
            &&& after.tools() == before.tools()
            &&& after.categories() == before.categories()
            &&& after.guarded() == before.guarded()
            &&& after.banned() == before.banned()
        },
        opened(before, after, None) ==> {
            &&& after.exposed() == before.exposed()
            &&& after.tools() == before.tools()
            &&& after.categories() == before.categories()
            &&& after.guarded() == before.guarded()
            &&& after.banned() == before.banned()
        },
{
}

/// Without a category, the categories are listed: the id of each, how many tools it has,
/// whether it is exposed now, and whether it is one of the defaults.
pub proof fn law_categories_are_listed(
    before: Registry,
    after: Registry,
    args: Args,
    i: int,
    key: Seq<char>,
)
    requires
        !(args.dom().contains("category"@) && args["category"@] is Str),
        0 <= i < before.categories().len(),
    ensures
        ({
            let said = local_result(before, after, "discover_tools"@, args);
            &&& said is Ok
            &&& said->Ok_0 is Object
            &&& ({
                let m = said->Ok_0->Object_0;
                let set = before.categories()[i];
                &&& m.dom().contains(key) <==> key == "categories"@ || key == "hint"@
                &&& m["hint"@] == JsonView::Str(
                    "call discover_tools again with a category id to expose that group of tools"@,
                )
                &&& m["categories"@] is Array
                &&& m["categories"@]->Array_0.len() == before.categories().len()
                &&& m["categories"@]->Array_0[i] is Object
                &&& ({
                    let row = m["categories"@]->Array_0[i]->Object_0;
                    &&& row.dom().contains(key) <==> key == "id"@ || key == "toolCount"@ || key
                        == "active"@ || key == "isDefault"@
                    &&& row["id"@] == JsonView::Str(set.id@)
                    &&& set.tools@.len() <= u64::MAX ==> row["toolCount"@] == JsonView::Number(
                        NumberView::Unsigned(set.tools@.len() as u64),
                    )
                    &&& row["active"@] == JsonView::Bool(before.exposed().contains(set.id@))
                    &&& row["isDefault"@] == JsonView::Bool(set.is_default)
                })
            })
        }),
{
    lemma_discovery_keys();
    assert(local_result(before, after, "discover_tools"@, args) == Ok::<JsonView, Seq<char>>(
        categories_result(before),
    ));
}

proof fn lemma_discovery_keys()
    ensures
        "categories"@.len() == 10,
        "hint"@.len() == 4,
        "id"@.len() == 2,
        "toolCount"@.len() == 9,
        "toolCount"@[0] == 't',
        "active"@.len() == 6,
        "isDefault"@.len() == 9,
        "isDefault"@[0] == 'i',
        "activated"@.len() == 9,
        "activated"@[0] == 'a',
        "activeCategories"@.len() == 16,
        "category"@.len() == 8,
        "category"@[0] == 'c',
        "project_id"@.len() == 10,
        "project_id"@[0] == 'p',
{
    reveal_strlit("categories");
    reveal_strlit("hint");
    reveal_strlit("id");
    reveal_strlit("toolCount");
    reveal_strlit("active");
    reveal_strlit("isDefault");
    reveal_strlit("activated");
    reveal_strlit("activeCategories");
    reveal_strlit("category");
    reveal_strlit("project_id");
}

/// With the id of a category, that category is exposed, and the caller is told which
/// ones are and how many tools there are now. An id of none is answered with the ids
/// that there are.
pub proof fn law_categories_are_exposed(
    before: Registry,
    after: Registry,
    args: Args,
    ids: Seq<Seq<char>>,
    i: int,
    key: Seq<char>,
)
    requires
        args.dom().contains("category"@) && args["category"@] is Str,
        ids.len() == before.categories().len(),
        forall|j: int| 0 <= j < ids.len() ==> #[trigger] ids[j] == before.categories()[j].id@,
    ensures
        ({
            let told = local_result(before, after, "discover_tools"@, args);
            let wanted = args["category"@]->Str_0;
            &&& !ids.contains(wanted) ==> told == Err::<JsonView, Seq<char>>(
                "unknown category "@ + quote(wanted) + "; valid categories: "@ + join(ids, ", "@),
            )
            &&& ids.contains(wanted) ==> {
                &&& told is Ok
                &&& told->Ok_0 is Object
                &&& ({
                    let m = told->Ok_0->Object_0;
                    let now = in_order(after.exposed());
                    &&& m.dom().contains(key) <==> key == "activated"@ || key
                        == "activeCategories"@ || key == "toolCount"@
                    &&& m["activated"@] == JsonView::Str(wanted)
                    &&& m["activeCategories"@] is Array
                    &&& m["activeCategories"@]->Array_0.len() == now.len()
                    &&& 0 <= i < now.len() ==> m["activeCategories"@]->Array_0[i] == JsonView::Str(
                        now[i],
                    )
                    &&& after.listing().len() <= u64::MAX ==> m["toolCount"@] == JsonView::Number(
                        NumberView::Unsigned(after.listing().len() as u64),
                    )
                })
            }
        }),
{
    lemma_discovery_keys();
    let wanted = args["category"@]->Str_0;
    let sets = before.categories();
    assert(crate::exec::category_ids(sets) =~= ids);
    if ids.contains(wanted) {
        let j = choose|j: int| 0 <= j < ids.len() && ids[j] == wanted;
        assert(sets[j].id@ == wanted);
        assert(crate::registry::known_category(sets, wanted));
    } else if crate::registry::known_category(sets, wanted) {
        let j = choose|j: int| 0 <= j < sets.len() && #[trigger] sets[j].id@ == wanted;
        assert(ids[j] == wanted);
    }
}

/// No other tool is answered by the server itself.
pub proof fn law_nothing_else_is_local(before: Registry, after: Registry, name: Seq<char>, args: Args)
    requires
        name != "discover_tools"@,
    ensures
        local_result(before, after, name, args) == Err::<JsonView, Seq<char>>(
            name + " has no local implementation"@,
        ),
{
}

// ------------------------------------------------------------------- calls

/// Whether a tool takes a project.
pub open spec fn takes_project(schema: Args) -> bool {
    &&& schema.dom().contains("properties"@)
    &&& schema["properties"@] is Object
    &&& schema["properties"@]->Object_0.dom().contains("project_id"@)
}

/// The default project stands in for one that is not given, in tools that take a
/// project, and nowhere else.
pub proof fn law_default_project(executor: Executor, entry: Arc<ToolEntry>, args: Args)
    ensures
        ({
            let gap = takes_project(entry.meta.input_schema.fields()) && !args.dom().contains(
                "project_id"@,
            );
            let full = executor.completed(entry, args);
            &&& gap && executor.fallback() is Some ==> full == args.insert(
                "project_id"@,
                JsonView::Str(executor.fallback()->0),
            )
            &&& !gap || executor.fallback() is None ==> full == args
        }),
{
}

/// Whether a call addresses a project that is not among those allowed, where some are.
pub open spec fn out_of_bounds(executor: Executor, full: Args) -> bool {
    &&& executor.allowed() != Set::<Seq<char>>::empty()
    &&& given(full, "project_id"@)
    &&& !executor.allowed().contains(said(full, "project_id"@))
}

/// A call begins by its kind, unless it addresses a project that is not allowed: then it
/// ends with the projects that are.
pub proof fn law_calls_begin(
    executor: Executor,
    before: Registry,
    after: Registry,
    entry: Arc<ToolEntry>,
    args: Args,
    now: nat,
)
    ensures
        ({
            let full = executor.completed(entry, args);
            let first = executor.begun(before, after, entry, args, now);
            let kind = entry.endpoint.kind;
            &&& out_of_bounds(executor, full) ==> first == StepView::Done(
                Err(
                    "project "@ + said(full, "project_id"@)
                        + " is not in GITLAB_ALLOWED_PROJECT_IDS; allowed: "@ + join(
                        in_order(executor.allowed()),
                        ", "@,
                    ),
                ),
            )
            &&& !out_of_bounds(executor, full) ==> {
                &&& kind == Kind::Rest ==> first == rest_begun(entry, full)
                &&& kind == Kind::Graphql ==> first == graphql_begun(entry, full)
                &&& kind == Kind::Composite ==> first == composite_begun(entry, full, now)
                &&& kind == Kind::Local ==> first == StepView::Done(
                    local_result(before, after, entry.meta.name@, full),
                )
            }
        }),
{
}

/// A composite tool that cannot be run says so; it is one of none of these names.
pub proof fn law_composites_that_can_be_run(entry: Arc<ToolEntry>, args: Args, now: nat)
    ensures
        ({
            let name = entry.meta.name@;
            let known = name == "wait_for_pipeline"@ || name == "wait_for_job"@ || name
                == "play_pipeline_jobs"@ || name == "get_webhook_event"@ || name
                == "create_branch"@ || name == "create_or_update_file"@ || name == "my_issues"@
                || name == "update_issue_description_patch"@ || name == "get_users"@ || name
                == "health_check"@;
            &&& implemented(name) <==> known
            &&& !known ==> composite_begun(entry, args, now) == StepView::Done(
                Err(
                    name
                        + " is not implemented in this server; it needs a multi-step mutation sequence that the reference implementation performs client-side"@,
                ),
            )
        }),
{
}

/// A call reaches the tool of its name. One of no tool, or of a tool that may not be
/// called, is told why.
pub proof fn law_calls_reach_their_tool(
    server: GitLabMcp,
    after: Registry,
    name: Seq<char>,
    args: Args,
    now: nat,
)
    ensures
        ({
            let reg = server.tools();
            let first = server.called(after, name, args, now);
            let entry = reg.tools()[name];
            let known = reg.tools().dom().contains(name);
            let guarded = reg.guarded() && !entry.endpoint.read_only;
            let closed = is_denied(reg, entry.meta.name@) || !reg.exposed().contains(
                entry.endpoint.category@,
            );
            &&& !known ==> first == StepView::Done(Err("unknown tool "@ + quote(name)))
            &&& known && guarded ==> first == StepView::Done(
                Err(name + " changes GitLab state and the server is in read-only mode"@),
            )
            &&& known && !guarded && closed ==> first == StepView::Done(
                Err(
                    name + " belongs to the inactive category "@ + quote(entry.endpoint.category@)
                        + "; call discover_tools with that category to enable it"@,
                ),
            )
            &&& known && !guarded && !closed ==> first == server.executor().begun(
                reg,
                after,
                entry,
                args,
                now,
            )
        }),
{
}

/// The one call that exposes a category is that of the discovery tool with the id of a
/// category, where it may be called and addresses no project that is not allowed.
pub proof fn law_calls_that_expose(server: GitLabMcp, name: Seq<char>, args: Args)
    ensures
        ({
            let reg = server.tools();
            let entry = reg.tools()[name];
            let full = server.executor().completed(entry, args);
            let open = reg.tools().dom().contains(name) && reg.callable(&*entry);
            let asks = entry.endpoint.kind == Kind::Local && entry.meta.name@
                == "discover_tools"@ && args.dom().contains("category"@)
                && args["category"@] is Str;
            let there = exists|i: int|
                0 <= i < reg.categories().len() && #[trigger] reg.categories()[i].id@
                    == args["category"@]->Str_0;
            let exposes = open && asks && there && !out_of_bounds(server.executor(), full);
            &&& exposes ==> server.opens(name, args) == Some(args["category"@]->Str_0)
            &&& !exposes ==> server.opens(name, args) is None
        }),
{
    lemma_discovery_keys();
    let reg = server.tools();
    let entry = reg.tools()[name];
    let full = server.executor().completed(entry, args);
    assert(full.dom().contains("category"@) <==> args.dom().contains("category"@));
    assert(args.dom().contains("category"@) ==> full["category"@] == args["category"@]);
}

/// A client reads a string as it is, any other result as JSON, and a failure by its
/// message.
pub proof fn law_results_are_read(s: Seq<char>, v: JsonView)
    ensures
        result_text(Ok(JsonView::Str(s))) == s,
        result_text(Err(s)) == s,
        v !is Str ==> result_text(Ok(v)) == json_print(v),
{
}

} // verus!
