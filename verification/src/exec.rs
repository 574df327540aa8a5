//! Turns a tool call plus its arguments into GitLab API traffic.

use crate::account::{get_users, health_begun, health_check, job_tried, on_health_job,
    on_health_user, on_health_version, on_user, user_found, user_tried, users_from, version_read};
use crate::args::{Args, arg_items, arg_scalar, arg_text, scalar_arg, text_arg};
use crate::config::Config;
use crate::error::ToolError;
use crate::files::{branch_begun, create_branch, create_or_update_file, default_found, file_begun,
    file_probed, on_default_branch, on_file_probe};
use crate::flow::{Stage, StageView, Step, StepView, Task, TaskView, fail, failed, result_seen,
    succeed, succeeded};
use crate::gitlab::{ApiError, ApiResponse, CallView, ErrorView, GitLabClient, InvalidToken, ResponseView,
    answer, auth_header};
use crate::graphql::{call_graphql, graphql_begun, looked_up, lookups_from, needs_lookup, on_lookup,
    on_query, on_reread, on_work_item, on_work_item_types, queried, reread_ended, targets,
    types_listed, work_item_found};
use crate::http::header_value;
use crate::issues::{edit_begun, issue_read, issue_saved, me_found, my_issues, my_issues_begun,
    note_left, on_issue_read, on_issue_saved, on_me, on_note, update_issue_description_patch};
use crate::jobs::{on_play_watch, on_played, play_next, play_pipeline_jobs, play_watched, played};
use crate::json::{Json, JsonMap, JsonView, lemma_array_view, lookup, views};
use crate::lists::text_field;
use crate::number::NumberView;
use crate::registry::{Kind, PreStep, Registry, ToolEntry, Toolset, known_category};
use crate::rest::{call_rest, end_rest, iid_found, resolve_iid, rest_begun, rest_ended};
use crate::strmap::in_order;
use crate::strset::StrSet;
use crate::text::{join, joined, opt_str, same, strs};
use crate::unicode::{quote, quoted};
use crate::watch::{on_watch, wait_begun, wait_for, waited};
use crate::webhook::{MAX_PAGES, get_webhook_event, on_webhook_page, page_read, search_begun};
use std::sync::Arc;
use vstd::prelude::*;
use vstd::string::*;

verus! {

/// Carries tool calls out, within the bounds that the settings draw.
pub struct Executor {
    client: GitLabClient,
    default_project_id: Option<String>,
    allowed_project_ids: StrSet,
    api_url: String,
}

// ---------------------------------------------------------------- projects

/// Whether a tool takes a project.
pub open spec fn accepts_project(schema: Args) -> bool {
    match lookup(schema, "properties"@) {
        Some(JsonView::Object(properties)) => properties.dom().contains("project_id"@),
        _ => false,
    }
}

/// The arguments with the default project filled in, where the tool takes a project
/// and none is given.
pub open spec fn with_default(default: Option<Seq<char>>, schema: Args, args: Args) -> Args {
    match default {
        Some(project) => if accepts_project(schema) && !args.dom().contains("project_id"@) {
            args.insert("project_id"@, JsonView::Str(project))
        } else {
            args
        },
        None => args,
    }
}

/// Why the arguments may not be used, where they address a project that is not
/// allowed.
pub open spec fn project_refusal(allowed: Set<Seq<char>>, args: Args) -> Option<Seq<char>> {
    if allowed == Set::<Seq<char>>::empty() {
        None
    } else {
        match arg_scalar(args, "project_id"@) {
            None => None,
            Some(p) => if allowed.contains(p) {
                None
            } else {
                Some(
                    "project "@ + p + " is not in GITLAB_ALLOWED_PROJECT_IDS; allowed: "@ + join(
                        in_order(allowed),
                        ", "@,
                    ),
                )
            },
        }
    }
}

// -------------------------------------------------------------- composites

/// The composite tools that can be run.
pub open spec fn implemented(name: Seq<char>) -> bool {
    ||| name == "wait_for_pipeline"@
    ||| name == "wait_for_job"@
    ||| name == "play_pipeline_jobs"@
    ||| name == "get_webhook_event"@
    ||| name == "create_branch"@
    ||| name == "create_or_update_file"@
    ||| name == "my_issues"@
    ||| name == "update_issue_description_patch"@
    ||| name == "get_users"@
    ||| name == "health_check"@
}

/// A composite tool that cannot be run refuses rather than doing half the work.
pub open spec fn unimplemented_text(name: Seq<char>) -> Seq<char> {
    name
        + " is not implemented in this server; it needs a multi-step mutation sequence that the reference implementation performs client-side"@
}

/// A composite tool begins.
pub open spec fn composite_begun(entry: Arc<ToolEntry>, args: Args, now: nat) -> StepView {
    let name = entry.meta.name@;
    if name == "wait_for_pipeline"@ {
        wait_begun(entry, args, "/pipelines/"@, "pipeline_id"@, "Pipeline not found"@, now)
    } else if name == "wait_for_job"@ {
        wait_begun(entry, args, "/jobs/"@, "job_id"@, "Job not found"@, now)
    } else if name == "play_pipeline_jobs"@ {
        play_next(entry, args, seq![])
    } else if name == "get_webhook_event"@ {
        search_begun(entry, args)
    } else if name == "create_branch"@ {
        branch_begun(entry, args)
    } else if name == "create_or_update_file"@ {
        file_begun(entry, args)
    } else if name == "my_issues"@ {
        my_issues_begun(entry, args)
    } else if name == "update_issue_description_patch"@ {
        edit_begun(entry, args)
    } else if name == "get_users"@ {
        users_from(entry, args, 0, Map::empty())
    } else if name == "health_check"@ {
        health_begun(entry, args)
    } else {
        failed(unimplemented_text(name))
    }
}

/// Whether a composite tool can be run.
pub fn is_implemented(name: &str) -> (r: bool)
    ensures
        r == implemented(name@),
{
    same(name, "wait_for_pipeline") || same(name, "wait_for_job") || same(name, "play_pipeline_jobs")
        || same(name, "get_webhook_event") || same(name, "create_branch") || same(
        name,
        "create_or_update_file",
    ) || same(name, "my_issues") || same(name, "update_issue_description_patch") || same(
        name,
        "get_users",
    ) || same(name, "health_check")
}

/// A composite tool begins.
fn call_composite(entry: &Arc<ToolEntry>, args: JsonMap, now: u64) -> (r: Step)
    ensures
        r@ == composite_begun(*entry, args.fields(), now as nat),
{
    let name = entry.meta.name.as_str();
    if same(name, "wait_for_pipeline") {
        wait_for(entry, args, "/pipelines/", "pipeline_id", "Pipeline not found", now)
    } else if same(name, "wait_for_job") {
        wait_for(entry, args, "/jobs/", "job_id", "Job not found", now)
    } else if same(name, "play_pipeline_jobs") {
        let none: Vec<Json> = Vec::new();
        assert(views(none@) == Seq::<JsonView>::empty());
        play_pipeline_jobs(entry, args, none)
    } else if same(name, "get_webhook_event") {
        get_webhook_event(entry, args)
    } else if same(name, "create_branch") {
        create_branch(entry, args)
    } else if same(name, "create_or_update_file") {
        create_or_update_file(entry, args)
    } else if same(name, "my_issues") {
        my_issues(entry, args)
    } else if same(name, "update_issue_description_patch") {
        update_issue_description_patch(entry, args)
    } else if same(name, "get_users") {
        get_users(entry, args, 0, JsonMap::empty())
    } else if same(name, "health_check") {
        health_check(entry, args)
    } else {
        fail(
            entry.meta.name.clone().concat(
                " is not implemented in this server; it needs a multi-step mutation sequence that the reference implementation performs client-side",
            ),
        )
    }
}

// --------------------------------------------------------------- discovery

/// A category as it is described to the caller.
pub open spec fn category_view(set: Toolset, exposed: Set<Seq<char>>) -> JsonView {
    JsonView::Object(
        Map::<Seq<char>, JsonView>::empty().insert("id"@, JsonView::Str(set.id@)).insert(
            "toolCount"@,
            JsonView::Number(NumberView::Unsigned(set.tools@.len() as u64)),
        ).insert("active"@, JsonView::Bool(exposed.contains(set.id@))).insert(
            "isDefault"@,
            JsonView::Bool(set.is_default),
        ),
    )
}

/// The categories as they are described to the caller.
pub open spec fn categories_result(reg: Registry) -> JsonView {
    JsonView::Object(
        Map::<Seq<char>, JsonView>::empty().insert(
            "categories"@,
            JsonView::Array(
                reg.categories().map_values(|t: Toolset| category_view(t, reg.exposed())),
            ),
        ).insert(
            "hint"@,
            JsonView::Str(
                "call discover_tools again with a category id to expose that group of tools"@,
            ),
        ),
    )
}

/// What is answered once a category is exposed.
pub open spec fn activated_result(reg: Registry, category: Seq<char>) -> JsonView {
    JsonView::Object(
        Map::<Seq<char>, JsonView>::empty().insert(
            "activated"@,
            JsonView::Str(category),
        ).insert(
            "activeCategories"@,
            JsonView::Array(
                in_order(reg.exposed()).map_values(|id: Seq<char>| JsonView::Str(id)),
            ),
        ).insert(
            "toolCount"@,
            JsonView::Number(NumberView::Unsigned(reg.listing().len() as u64)),
        ),
    )
}

/// The ids of the categories.
pub open spec fn category_ids(sets: Seq<Toolset>) -> Seq<Seq<char>> {
    sets.map_values(|t: Toolset| t.id@)
}

/// The category that a call exposes, where it does.
pub open spec fn category_opened(reg: Registry, name: Seq<char>, args: Args) -> Option<Seq<char>> {
    if name == "discover_tools"@ {
        match arg_text(args, "category"@) {
            Some(c) => if known_category(reg.categories(), c) {
                Some(c)
            } else {
                None
            },
            None => None,
        }
    } else {
        None
    }
}

/// What a tool that the server answers itself says, given the registry before and
/// after the call.
pub open spec fn local_result(before: Registry, after: Registry, name: Seq<char>, args: Args) -> Result<
    JsonView,
    Seq<char>,
> {
    if name != "discover_tools"@ {
        Err(name + " has no local implementation"@)
    } else {
        match arg_text(args, "category"@) {
            None => Ok(categories_result(before)),
            Some(c) => if known_category(before.categories(), c) {
                Ok(activated_result(after, c))
            } else {
                Err(
                    "unknown category "@ + quote(c) + "; valid categories: "@ + join(
                        category_ids(before.categories()),
                        ", "@,
                    ),
                )
            },
        }
    }
}

/// Whether one registry is another in which a category was exposed, or none.
pub open spec fn opened(before: Registry, after: Registry, category: Option<Seq<char>>) -> bool {
    &&& after.tools() == before.tools()
    &&& after.categories() == before.categories()
    &&& after.guarded() == before.guarded()
    &&& after.banned() == before.banned()
    &&& after.exposed() == (match category {
        Some(c) => before.exposed().insert(c),
        None => before.exposed(),
    })
}

/// A category as it is described to the caller.
fn describe_category(set: &Toolset, active: &StrSet) -> (r: Json)
    ensures
        r@ == category_view(*set, active@),
{
    let mut out = JsonMap::empty();
    out.put("id", Json::from_text(set.id.as_str()));
    out.put("toolCount", Json::from_u64(set.tools.len() as u64));
    out.put("active", Json::Bool(active.contains(set.id.as_str())));
    out.put("isDefault", Json::Bool(set.is_default));
    Json::Object(out)
}

/// The categories as they are described to the caller.
fn describe_categories(registry: &Registry) -> (r: Json)
    ensures
        r@ == categories_result(*registry),
{
    let active = registry.active_categories();
    let sets = registry.toolsets();
    let mut list: Vec<Json> = Vec::new();
    let ghost wanted = registry.categories().map_values(
        |t: Toolset| category_view(t, registry.exposed()),
    );
    for i in 0..sets.len()
        invariant
            active@ == registry.exposed(),
            sets@ == registry.categories(),
            wanted == registry.categories().map_values(
                |t: Toolset| category_view(t, registry.exposed()),
            ),
            views(list@) == wanted.take(i as int),
    {
        let ghost held = list@;
        let item = describe_category(&sets[i], &active);
        list.push(item);
        assert(wanted[i as int] == item@);
        assert(views(list@) == views(held).push(item@));
        assert(wanted.take(i + 1) == wanted.take(i as int).push(item@));
    }
    assert(wanted.take(sets@.len() as int) == wanted);
    proof {
        broadcast use lemma_array_view;

    }
    let mut out = JsonMap::empty();
    out.put("categories", Json::Array(list));
    out.put(
        "hint",
        Json::from_text(
            "call discover_tools again with a category id to expose that group of tools",
        ),
    );
    Json::Object(out)
}

/// What is answered once a category is exposed.
fn describe_activated(registry: &Registry, category: &str) -> (r: Json)
    ensures
        r@ == activated_result(*registry, category@),
{
    let ids = registry.active_categories().to_list();
    let mut list: Vec<Json> = Vec::new();
    let ghost wanted = in_order(registry.exposed()).map_values(|id: Seq<char>| JsonView::Str(id));
    assert(strs(ids@).len() == ids@.len());
    for i in 0..ids.len()
        invariant
            strs(ids@) == in_order(registry.exposed()),
            wanted == in_order(registry.exposed()).map_values(|id: Seq<char>| JsonView::Str(id)),
            views(list@) == wanted.take(i as int),
    {
        let ghost held = list@;
        assert(strs(ids@)[i as int] == ids@[i as int]@);
        let item = Json::from_text(ids[i].as_str());
        list.push(item);
        assert(wanted[i as int] == item@);
        assert(views(list@) == views(held).push(item@));
        assert(wanted.take(i + 1) == wanted.take(i as int).push(item@));
    }
    assert(wanted.take(ids@.len() as int) == wanted);
    proof {
        broadcast use lemma_array_view;

    }
    let mut out = JsonMap::empty();
    out.put("activated", Json::from_text(category));
    out.put("activeCategories", Json::Array(list));
    out.put("toolCount", Json::from_u64(registry.visible().len() as u64));
    Json::Object(out)
}

/// The ids of the categories.
pub fn ids_of(sets: &Vec<Toolset>) -> (r: Vec<String>)
    ensures
        strs(r@) == category_ids(sets@),
{
    let mut out: Vec<String> = Vec::new();
    for i in 0..sets.len()
        invariant
            strs(out@) == category_ids(sets@).take(i as int),
    {
        let ghost held = out@;
        out.push(sets[i].id.clone());
        assert(strs(out@) == strs(held).push(sets@[i as int].id@));
        assert(category_ids(sets@).take(i + 1) == category_ids(sets@).take(i as int).push(
            sets@[i as int].id@,
        ));
    }
    assert(category_ids(sets@).take(sets@.len() as int) == category_ids(sets@));
    out
}

/// A tool that the server answers itself.
pub fn call_local(registry: &mut Registry, name: &str, args: &JsonMap) -> (r: Result<Json, ToolError>)
    ensures
        opened(
            *old(registry),
            *final(registry),
            category_opened(*old(registry), name@, args.fields()),
        ),
        result_seen(r) == local_result(*old(registry), *final(registry), name@, args.fields()),
{
    if !same(name, "discover_tools") {
        return Err(ToolError(name.to_string().concat(" has no local implementation")));
    }
    let category = match text_arg(args, "category") {
        Some(c) => c,
        None => {
            return Ok(describe_categories(registry));
        },
    };
    if !registry.activate(category) {
        let mut message = "unknown category ".to_string();
        message.append(quoted(category).as_str());
        message.append("; valid categories: ");
        message.append(joined(&ids_of(registry.toolsets()), ", ").as_str());
        return Err(ToolError(message));
    }
    Ok(describe_activated(registry, category))
}

// ---------------------------------------------------------------- executor

impl Executor {
    /// The client that calls go through.
    pub closed spec fn transport(self) -> GitLabClient {
        self.client
    }

    /// The project that fills in for a missing one.
    pub closed spec fn fallback(self) -> Option<Seq<char>> {
        opt_str(self.default_project_id)
    }

    /// The projects that may be addressed; all, where there are none here.
    pub closed spec fn allowed(self) -> Set<Seq<char>> {
        self.allowed_project_ids@
    }

    /// The REST base, as it is reported.
    pub closed spec fn url(self) -> Seq<char> {
        self.api_url@
    }

    /// The arguments of a call with the default project filled in.
    pub open spec fn completed(self, entry: Arc<ToolEntry>, args: Args) -> Args {
        with_default(self.fallback(), entry.meta.input_schema.fields(), args)
    }

    /// A call begins; the registry before and after it matters only to tools that the
    /// server answers itself.
    pub open spec fn begun(
        self,
        before: Registry,
        after: Registry,
        entry: Arc<ToolEntry>,
        args: Args,
        now: nat,
    ) -> StepView {
        let full = self.completed(entry, args);
        match project_refusal(self.allowed(), full) {
            Some(e) => failed(e),
            None => match entry.endpoint.kind {
                Kind::Rest => rest_begun(entry, full),
                Kind::Graphql => graphql_begun(entry, full),
                Kind::Composite => composite_begun(entry, full, now),
                Kind::Local => StepView::Done(local_result(before, after, entry.meta.name@, full)),
            },
        }
    }

    /// The category that a call exposes, where it does.
    pub open spec fn opens(self, reg: Registry, entry: Arc<ToolEntry>, args: Args) -> Option<Seq<char>> {
        let full = self.completed(entry, args);
        if project_refusal(self.allowed(), full) is None && entry.endpoint.kind == Kind::Local {
            category_opened(reg, entry.meta.name@, full)
        } else {
            None
        }
    }

    /// A call goes on with a reply.
    pub open spec fn resumed(
        self,
        reg: Registry,
        task: TaskView,
        reply: Result<ResponseView, ErrorView>,
        now: nat,
    ) -> StepView {
        let entry = task.entry;
        let args = task.args;
        match task.stage {
            StageView::Iid => iid_found(entry, args, reply),
            StageView::Rest => rest_ended(*entry.endpoint, reply),
            StageView::Passthrough => plain_ended(reply),
            StageView::Lookup { resolved, at, path } => looked_up(
                entry,
                args,
                resolved,
                at,
                path,
                reply,
            ),
            StageView::WorkItem { resolved, path, iid } => work_item_found(
                entry,
                args,
                resolved,
                path,
                iid,
                reply,
            ),
            StageView::WorkItemType { resolved, path, wanted } => types_listed(
                entry,
                args,
                resolved,
                path,
                wanted,
                reply,
            ),
            StageView::Query { resolved } => queried(reg, entry, args, resolved, reply),
            StageView::Reread { read } => reread_ended(read, reply),
            StageView::Watch { watch } => waited(entry, args, watch, reply, now),
            StageView::Played { completed, job_id } => played(
                entry,
                args,
                completed,
                job_id,
                reply,
                now,
            ),
            StageView::PlayWatch { watch, completed } => play_watched(
                entry,
                args,
                watch,
                completed,
                reply,
                now,
            ),
            StageView::Webhook { page } => page_read(entry, args, page, reply),
            StageView::DefaultBranch => default_found(entry, args, reply),
            StageView::FileProbe => file_probed(entry, args, reply),
            StageView::MyIssues => me_found(entry, args, reply),
            StageView::PatchRead => issue_read(entry, args, reply),
            StageView::PatchSave { changed } => issue_saved(entry, args, changed, reply),
            StageView::PatchNote { out } => note_left(out, reply),
            StageView::Users { at, out } => user_found(entry, args, at, out, reply),
            StageView::Health => user_tried(entry, args, self.url(), reply),
            StageView::HealthJob { error } => job_tried(entry, args, self.url(), error, reply),
            StageView::HealthVersion => version_read(self.url(), reply),
            StageView::Plain => plain_ended(reply),
        }
    }

    /// An executor within the bounds of the settings.
    pub fn new(cfg: &Config) -> (r: Result<Self, InvalidToken>)
        ensures
            match r {
                Ok(x) => {
                    &&& header_value(auth_header(cfg.auth, cfg.token@).1)
                    &&& x.transport().rest_base() == cfg.api_url@
                    &&& x.transport().graphql_base() == cfg.graphql_url@
                    &&& x.transport().limit() == cfg.max_response_bytes
                    &&& x.transport().credentials() == auth_header(cfg.auth, cfg.token@)
                    &&& x.fallback() == opt_str(cfg.default_project_id)
                    &&& x.allowed() == cfg.allowed_project_ids@
                    &&& x.url() == cfg.api_url@
                },
                Err(_) => !header_value(auth_header(cfg.auth, cfg.token@).1),
            },
    {
        match GitLabClient::new(cfg) {
            Ok(client) => Ok(
                Executor {
                    client,
                    default_project_id: cfg.default_project_id.clone(),
                    allowed_project_ids: cfg.allowed_project_ids.copy(),
                    api_url: cfg.api_url.clone(),
                },
            ),
            Err(e) => Err(e),
        }
    }

    /// A configured default project fills in for a missing `project_id`.
    fn apply_default_project(&self, entry: &ToolEntry, args: &mut JsonMap)
        ensures
            final(args).fields() == with_default(
                self.fallback(),
                entry.meta.input_schema.fields(),
                old(args).fields(),
            ),
    {
        let default = match &self.default_project_id {
            Some(d) => d,
            None => {
                return;
            },
        };
        let accepts = match entry.meta.input_schema.field("properties") {
            Some(p) => match p.as_object() {
                Some(m) => m.has_field("project_id"),
                None => false,
            },
            None => false,
        };
        if accepts && !args.has_field("project_id") {
            args.put("project_id", Json::from_text(default.as_str()));
        }
    }

    /// Refuses arguments that address a project that is not allowed.
    fn check_project_allowed(&self, args: &JsonMap) -> (r: Result<(), ToolError>)
        ensures
            match r {
                Ok(_) => project_refusal(self.allowed(), args.fields()) is None,
                Err(e) => project_refusal(self.allowed(), args.fields()) == Some(e.0@),
            },
    {
        if self.allowed_project_ids.is_empty() {
            return Ok(());
        }
        let p = match scalar_arg(args, "project_id") {
            Some(p) => p,
            None => {
                return Ok(());
            },
        };
        if self.allowed_project_ids.contains(p.as_str()) {
            return Ok(());
        }
        let mut message = "project ".to_string();
        message.append(p.as_str());
        message.append(" is not in GITLAB_ALLOWED_PROJECT_IDS; allowed: ");
        message.append(joined(&self.allowed_project_ids.to_list(), ", ").as_str());
        Err(ToolError(message))
    }

    /// A call begins. Times are in nanoseconds, on a clock that never runs backwards.
    pub fn call(&self, registry: &mut Registry, entry: &Arc<ToolEntry>, args: JsonMap, now: u64) -> (r:
        Step)
        ensures
            r@ == self.begun(
                *old(registry),
                *final(registry),
                *entry,
                args.fields(),
                now as nat,
            ),
            opened(
                *old(registry),
                *final(registry),
                self.opens(*old(registry), *entry, args.fields()),
            ),
    {
        let mut full = args;
        self.apply_default_project(entry, &mut full);
        if let Err(e) = self.check_project_allowed(&full) {
            return fail(e.0);
        }
        match entry.endpoint.kind {
            Kind::Rest => call_rest(entry, full),
            Kind::Graphql => call_graphql(entry, full),
            Kind::Composite => call_composite(entry, full, now),
            Kind::Local => Step::Done(call_local(registry, entry.meta.name.as_str(), &full)),
        }
    }

    /// A call goes on with a reply.
    pub fn resume(
        &self,
        registry: &Registry,
        task: Task,
        reply: Result<ApiResponse, ApiError>,
        now: u64,
    ) -> (r: Step)
        ensures
            r@ == self.resumed(*registry, task@, answer(reply), now as nat),
    {
        let entry = &task.entry;
        let args = task.args;
        let url = self.api_url.as_str();
        match task.stage {
            Stage::Iid => resolve_iid(entry, args, reply),
            Stage::Rest => end_rest(entry, reply),
            Stage::Passthrough => end_plain(reply),
            Stage::Lookup { resolved, at, path } => on_lookup(
                entry,
                args,
                resolved,
                at,
                path,
                reply,
            ),
            Stage::WorkItem { resolved, path, iid } => on_work_item(
                entry,
                args,
                resolved,
                path,
                iid,
                reply,
            ),
            Stage::WorkItemType { resolved, path, wanted } => on_work_item_types(
                entry,
                args,
                resolved,
                path,
                wanted,
                reply,
            ),
            Stage::Query { resolved } => on_query(registry, entry, args, resolved, reply),
            Stage::Reread { read } => on_reread(&read, reply),
            Stage::Watch { watch } => on_watch(entry, args, watch, reply, now),
            Stage::Played { completed, job_id } => on_played(
                entry,
                args,
                completed,
                job_id,
                reply,
                now,
            ),
            Stage::PlayWatch { watch, completed } => on_play_watch(
                entry,
                args,
                watch,
                completed,
                reply,
                now,
            ),
            Stage::Webhook { page } => on_webhook_page(entry, args, page, reply),
            Stage::DefaultBranch => on_default_branch(entry, args, reply),
            Stage::FileProbe => on_file_probe(entry, args, reply),
            Stage::MyIssues => on_me(entry, args, reply),
            Stage::PatchRead => on_issue_read(entry, args, reply),
            Stage::PatchSave { changed } => on_issue_saved(entry, args, changed, reply),
            Stage::PatchNote { out } => on_note(out, reply),
            Stage::Users { at, out } => on_user(entry, args, at, out, reply),
            Stage::Health => on_health_user(entry, args, url, reply),
            Stage::HealthJob { error } => on_health_job(entry, args, url, error, reply),
            Stage::HealthVersion => on_health_version(url, reply),
            Stage::Plain => end_plain(reply),
        }
    }

    /// The client that calls go through.
    pub fn client(&self) -> (r: &GitLabClient)
        ensures
            *r == self.transport(),
    {
        &self.client
    }
}

/// A call ends with the body of a reply.
pub open spec fn plain_ended(reply: Result<ResponseView, ErrorView>) -> StepView {
    match reply {
        Ok(resp) => succeeded(resp.body),
        Err(e) => failed(e.text()),
    }
}

/// A call ends with the body of a reply.
fn end_plain(reply: Result<ApiResponse, ApiError>) -> (r: Step)
    ensures
        r@ == plain_ended(answer(reply)),
{
    match reply {
        Ok(resp) => succeed(resp.body),
        Err(e) => fail(e.text()),
    }
}

// -------------------------------------------------------------------- laws

/// Arguments that the caller gives are never replaced by the default project, and
/// nothing but the project is ever added.
pub proof fn law_default_fills_only_a_gap(
    default: Option<Seq<char>>,
    schema: Args,
    args: Args,
    key: Seq<char>,
)
    ensures
        args.dom().contains(key) ==> with_default(default, schema, args).dom().contains(key)
            && with_default(default, schema, args)[key] == args[key],
        with_default(default, schema, args).dom().contains(key) ==> args.dom().contains(key) || key
            == "project_id"@,
{
}

/// A call that names a project which is not allowed ends at once: nothing is sent and
/// no category is exposed. A default project is held to the same rule.
pub proof fn law_refused_project_sends_nothing(
    executor: Executor,
    before: Registry,
    after: Registry,
    entry: Arc<ToolEntry>,
    args: Args,
    now: nat,
)
    requires
        executor.allowed() != Set::<Seq<char>>::empty(),
        arg_scalar(executor.completed(entry, args), "project_id"@) is Some,
        !executor.allowed().contains(arg_scalar(executor.completed(entry, args), "project_id"@)->0),
    ensures
        executor.begun(before, after, entry, args, now) is Done,
        executor.begun(before, after, entry, args, now)->Done_0 is Err,
        executor.opens(before, entry, args) is None,
{
}

/// A composite tool that is not implemented refuses, and nothing is sent.
pub proof fn law_unimplemented_composites_refuse(entry: Arc<ToolEntry>, args: Args, now: nat)
    requires
        !implemented(entry.meta.name@),
    ensures
        composite_begun(entry, args, now) == failed(unimplemented_text(entry.meta.name@)),
{
}

/// How many replies a waiting call needs at most until it ends, those to repeated
/// questions for a status not counted.
pub open spec fn replies_left(task: TaskView) -> nat {
    match task.stage {
        StageView::Iid => 2,
        StageView::Rest => 1,
        StageView::Passthrough => 1,
        StageView::Lookup { resolved, at, path } => {
            let all = tool_targets(task.entry).len();
            if 0 <= at < all {
                (5 + all - at) as nat
            } else {
                5
            }
        },
        StageView::WorkItem { .. } => 4,
        StageView::WorkItemType { .. } => 3,
        StageView::Query { .. } => 2,
        StageView::Reread { .. } => 1,
        StageView::Watch { .. } => 1,
        StageView::Played { completed, .. } => if jobs_left(task.args, completed) > 0 {
            2 * jobs_left(task.args, completed)
        } else {
            2
        },
        StageView::PlayWatch { completed, .. } => if jobs_left(task.args, completed) > 0 {
            (2 * jobs_left(task.args, completed) - 1) as nat
        } else {
            1
        },
        StageView::Webhook { page } => if page < MAX_PAGES {
            (MAX_PAGES - page + 1) as nat
        } else {
            1
        },
        StageView::DefaultBranch => 2,
        StageView::FileProbe => 2,
        StageView::MyIssues => 2,
        StageView::PatchRead => 3,
        StageView::PatchSave { .. } => 2,
        StageView::PatchNote { .. } => 1,
        StageView::Users { at, .. } => match arg_items(task.args, "usernames"@) {
            Some(names) => if 0 <= at < names.len() {
                (names.len() - at) as nat
            } else {
                1
            },
            None => 1,
        },
        StageView::Health => 3,
        StageView::HealthJob { .. } => 2,
        StageView::HealthVersion => 1,
        StageView::Plain => 1,
    }
}

/// How many jobs are still to be played.
pub open spec fn jobs_left(args: Args, completed: Seq<JsonView>) -> nat {
    match arg_items(args, "job_ids"@) {
        Some(ids) => if completed.len() < ids.len() {
            (ids.len() - completed.len()) as nat
        } else {
            0
        },
        None => 0,
    }
}

/// The arguments that a tool looks up.
pub open spec fn tool_targets(entry: Arc<ToolEntry>) -> Seq<Seq<char>> {
    targets(*entry.endpoint)
}

/// How a tool looks its arguments up.
pub open spec fn tool_lookup(entry: Arc<ToolEntry>) -> PreStep {
    entry.endpoint.pre_step->0
}

/// What is sent from a lookup on needs no more replies than there are targets left,
/// besides those to the calls that follow.
proof fn lemma_lookups_come_nearer(entry: Arc<ToolEntry>, args: Args, resolved: Args, at: int)
    requires
        0 <= at,
        lookups_from(entry, args, resolved, at) is Send,
    ensures
        replies_left(lookups_from(entry, args, resolved, at)->Send_1) <= (if at < tool_targets(
            entry,
        ).len() {
            5 + tool_targets(entry).len() - at
        } else {
            4
        }),
    decreases tool_targets(entry).len() - at,
{
    let all = tool_targets(entry);
    if at < all.len() {
        let step = tool_lookup(entry);
        match arg_scalar(args, all[at]) {
            None => {
                lemma_lookups_come_nearer(entry, args, resolved, at + 1);
            },
            Some(raw) => {
                if !needs_lookup(step, raw) {
                    lemma_lookups_come_nearer(
                        entry,
                        args,
                        resolved.insert(all[at], JsonView::Str(raw)),
                        at + 1,
                    );
                }
            },
        }
    }
}

/// Every reply brings a call nearer its end: it ends, or it sends a call after which
/// fewer replies are needed, or it asks for the same status once more and has changed
/// in nothing.
#[verifier::spinoff_prover]
#[verifier::rlimit(30)]
pub proof fn law_calls_come_to_an_end(
    executor: Executor,
    reg: Registry,
    task: TaskView,
    reply: Result<ResponseView, ErrorView>,
    now: nat,
)
    ensures
        match executor.resumed(reg, task, reply, now) {
            StepView::Done(_) => true,
            StepView::Send(_, next) => replies_left(next) < replies_left(task),
            StepView::Sleep(_, _, next) => next == task,
        },
{
    let entry = task.entry;
    let args = task.args;
    match task.stage {
        StageView::Lookup { resolved, at, path } => {
            if let Ok(resp) = reply {
                let all = tool_targets(entry);
                if 0 <= at < all.len() {
                    let field = tool_lookup(entry).field@;
                    if let Some(v) = text_field(resp.body, field) {
                        let more = resolved.insert(all[at], JsonView::Str(v));
                        if lookups_from(entry, args, more, at + 1) is Send {
                            lemma_lookups_come_nearer(entry, args, more, at + 1);
                        } else {
                            lemma_lookups_never_pause(entry, args, more, at + 1);
                        }
                    }
                }
            }
        },
        _ => {},
    }
}

/// Looking ids up never makes a call pause.
proof fn lemma_lookups_never_pause(entry: Arc<ToolEntry>, args: Args, resolved: Args, at: int)
    ensures
        lookups_from(entry, args, resolved, at) !is Sleep,
    decreases tool_targets(entry).len() - at,
{
    let all = tool_targets(entry);
    if 0 <= at < all.len() {
        let step = tool_lookup(entry);
        match arg_scalar(args, all[at]) {
            None => {
                lemma_lookups_never_pause(entry, args, resolved, at + 1);
            },
            Some(raw) => {
                if !needs_lookup(step, raw) {
                    lemma_lookups_never_pause(
                        entry,
                        args,
                        resolved.insert(all[at], JsonView::Str(raw)),
                        at + 1,
                    );
                }
            },
        }
    }
}

/// Whether what is done next, if it is a call, only reads.
pub open spec fn only_reads(step: StepView) -> bool {
    match step {
        StepView::Send(CallView::Rest { method, body, .. }, _) => method == "GET"@ && body is None,
        StepView::Sleep(_, CallView::Rest { method, body, .. }, _) => method == "GET"@ && body
            is None,
        StepView::Done(_) => true,
        _ => false,
    }
}

/// The composite tools that look something up or wait for it.
pub open spec fn looks_up(name: Seq<char>) -> bool {
    ||| name == "wait_for_pipeline"@
    ||| name == "wait_for_job"@
    ||| name == "get_webhook_event"@
    ||| name == "my_issues"@
    ||| name == "get_users"@
    ||| name == "health_check"@
}

/// The stages that those tools wait at.
pub open spec fn lookup_stage(stage: StageView) -> bool {
    ||| stage is Watch
    ||| stage is Webhook
    ||| stage is MyIssues
    ||| stage is Users
    ||| stage is Health
    ||| stage is HealthJob
    ||| stage is HealthVersion
    ||| stage is Plain
}

/// The stage that a call waits at after a step, where it does.
pub open spec fn stage_after(step: StepView) -> Option<StageView> {
    match step {
        StepView::Send(_, task) => Some(task.stage),
        StepView::Sleep(_, _, task) => Some(task.stage),
        StepView::Done(_) => None,
    }
}

/// A composite tool that looks something up or waits for it changes nothing: all of
/// its calls only read, from the first to the last.
pub proof fn law_lookup_tools_only_read(
    executor: Executor,
    reg: Registry,
    entry: Arc<ToolEntry>,
    args: Args,
    task: TaskView,
    reply: Result<ResponseView, ErrorView>,
    now: nat,
)
    requires
        looks_up(entry.meta.name@),
        lookup_stage(task.stage),
    ensures
        ({
            let first = composite_begun(entry, args, now);
            only_reads(first) && (stage_after(first) is Some ==> lookup_stage(
                stage_after(first)->0,
            ))
        }),
        ({
            let next = executor.resumed(reg, task, reply, now);
            only_reads(next) && (stage_after(next) is Some ==> lookup_stage(stage_after(next)->0))
        }),
{
    lemma_names_differ();
}

proof fn lemma_names_differ()
    ensures
        "wait_for_pipeline"@ != "play_pipeline_jobs"@,
        "get_webhook_event"@ != "play_pipeline_jobs"@,
        "my_issues"@ != "play_pipeline_jobs"@,
        "get_users"@ != "play_pipeline_jobs"@,
        "health_check"@ != "play_pipeline_jobs"@,
        "my_issues"@ != "create_branch"@,
        "get_users"@ != "create_branch"@,
        "health_check"@ != "create_branch"@,
        "my_issues"@ != "create_or_update_file"@,
        "get_users"@ != "create_or_update_file"@,
        "health_check"@ != "create_or_update_file"@,
        "get_users"@ != "update_issue_description_patch"@,
        "health_check"@ != "update_issue_description_patch"@,
{
    reveal_strlit("wait_for_pipeline");
    reveal_strlit("play_pipeline_jobs");
    reveal_strlit("get_webhook_event");
    reveal_strlit("my_issues");
    reveal_strlit("get_users");
    reveal_strlit("health_check");
    reveal_strlit("create_branch");
    reveal_strlit("create_or_update_file");
    reveal_strlit("update_issue_description_patch");
    assert("wait_for_pipeline"@[0] != "play_pipeline_jobs"@[0]);
    assert("get_webhook_event"@[0] != "play_pipeline_jobs"@[0]);
    assert("my_issues"@[0] != "play_pipeline_jobs"@[0]);
    assert("get_users"@[0] != "play_pipeline_jobs"@[0]);
    assert("health_check"@[0] != "play_pipeline_jobs"@[0]);
    assert("my_issues"@[0] != "create_branch"@[0]);
    assert("my_issues"@[0] != "create_or_update_file"@[0]);
    assert("get_users"@[0] != "create_branch"@[0]);
    assert("health_check"@[0] != "create_branch"@[0]);
    assert("get_users"@[0] != "update_issue_description_patch"@[0]);
    assert("health_check"@[0] != "update_issue_description_patch"@[0]);
}

} // verus!
