//! The MCP surface: tool listing, dispatch and result formatting.

use crate::args::Args;
use crate::error::ToolError;
use crate::exec::{Executor, opened};
use crate::flow::{Step, StepView, Task, fail, failed, result_seen};
use crate::gitlab::{ApiCall, HttpReply, HttpRequest};
use crate::interop::{json_print, print};
use crate::json::{Json, JsonMap, JsonView, copy_fields};
use crate::registry::{Endpoint, Registry, ToolEntry, Toolset};
use crate::text::{decimal, decimal_text, join, joined, opt_str, same, strs};
use crate::unicode::{quote, quoted};
use std::sync::Arc;
use vstd::prelude::*;
use vstd::string::*;

verus! {

/// The server: which tools there are, and how they are carried out.
pub struct GitLabMcp {
    registry: Registry,
    runner: Executor,
}

/// What the client is told of a tool.
#[derive(Debug)]
pub struct ToolListing {
    pub name: String,
    pub description: String,
    pub input_schema: JsonMap,
    pub read_only: bool,
    pub destructive: bool,
    pub idempotent: bool,
    pub open_world: bool,
}

/// What the client is told of a tool, as a mathematical value.
pub struct ListingView {
    pub name: Seq<char>,
    pub description: Seq<char>,
    pub input_schema: Args,
    pub read_only: bool,
    pub destructive: bool,
    pub idempotent: bool,
    pub open_world: bool,
}

impl View for ToolListing {
    type V = ListingView;

    open spec fn view(&self) -> ListingView {
        ListingView {
            name: self.name@,
            description: self.description@,
            input_schema: self.input_schema.fields(),
            read_only: self.read_only,
            destructive: self.destructive,
            idempotent: self.idempotent,
            open_world: self.open_world,
        }
    }
}

/// Whether doing a tool's call twice is as good as doing it once.
pub open spec fn idempotent(ep: Endpoint) -> bool {
    let method = opt_str(ep.method);
    method == Some("GET"@) || method == Some("PUT"@) || method == Some("DELETE"@)
}

/// What the client is told of a tool.
pub open spec fn listing_of(entry: &ToolEntry) -> ListingView {
    ListingView {
        name: entry.meta.name@,
        description: entry.meta.description@,
        input_schema: entry.meta.input_schema.fields(),
        read_only: entry.endpoint.read_only,
        destructive: entry.endpoint.destructive,
        idempotent: idempotent(*entry.endpoint),
        open_world: true,
    }
}

/// What the client is told of several tools.
pub open spec fn listings(list: Seq<ToolListing>) -> Seq<ListingView> {
    list.map_values(|t: ToolListing| t@)
}

/// The ids of the categories that are not exposed.
pub open spec fn hidden_ids(sets: Seq<Toolset>, exposed: Set<Seq<char>>) -> Seq<Seq<char>>
    decreases sets.len(),
{
    if sets.len() == 0 {
        seq![]
    } else {
        let head = hidden_ids(sets.drop_last(), exposed);
        if exposed.contains(sets.last().id@) {
            head
        } else {
            head.push(sets.last().id@)
        }
    }
}

/// What the model is told of the server.
pub open spec fn instructions_for(reg: Registry) -> Seq<char> {
    let hidden = hidden_ids(reg.categories(), reg.exposed());
    let head = "GitLab API access. "@ + decimal(reg.listing().len())
        + " tools are active. Project arguments accept either a numeric id or a URL-encoded path such as group/subgroup/project."@;
    let guarded = if reg.guarded() {
        head + " The server runs in read-only mode, so no tool can change GitLab state."@
    } else {
        head
    };
    if hidden.len() == 0 {
        guarded
    } else {
        guarded + " Further categories are available on request via discover_tools: "@ + join(
            hidden,
            ", "@,
        ) + "."@
    }
}

/// Why a tool may not be called.
pub open spec fn refusal(reg: Registry, name: Seq<char>, entry: &ToolEntry) -> Seq<char> {
    if reg.guarded() && !entry.endpoint.read_only {
        name + " changes GitLab state and the server is in read-only mode"@
    } else {
        name + " belongs to the inactive category "@ + quote(entry.endpoint.category@)
            + "; call discover_tools with that category to enable it"@
    }
}

/// Why a call is refused before it begins, where it is.
pub open spec fn denial(reg: Registry, name: Seq<char>) -> Option<Seq<char>> {
    if !reg.tools().dom().contains(name) {
        Some("unknown tool "@ + quote(name))
    } else if !reg.callable(&*reg.tools()[name]) {
        Some(refusal(reg, name, &*reg.tools()[name]))
    } else {
        None
    }
}

/// A result as the client reads it: a string as it is, anything else as JSON, an
/// error by its message.
pub open spec fn result_text(r: Result<JsonView, Seq<char>>) -> Seq<char> {
    match r {
        Ok(JsonView::Str(s)) => s,
        Ok(v) => json_print(v),
        Err(e) => e,
    }
}

/// What the client is told of a tool.
pub fn to_mcp_tool(entry: &ToolEntry) -> (r: ToolListing)
    ensures
        r@ == listing_of(entry),
{
    let repeatable = match &entry.endpoint.method {
        Some(m) => same(m.as_str(), "GET") || same(m.as_str(), "PUT") || same(m.as_str(), "DELETE"),
        None => false,
    };
    ToolListing {
        name: entry.meta.name.clone(),
        description: entry.meta.description.clone(),
        input_schema: copy_fields(&entry.meta.input_schema),
        read_only: entry.endpoint.read_only,
        destructive: entry.endpoint.destructive,
        idempotent: repeatable,
        open_world: true,
    }
}

/// A result as the client reads it. Tool failures are results, not protocol errors:
/// the model must be able to read what went wrong and try something else.
pub fn render_result(result: Result<Json, ToolError>) -> (r: (String, bool))
    ensures
        r.0@ == result_text(result_seen(result)),
        r.1 == (result is Err),
{
    match result {
        Ok(value) => match value {
            Json::Str(s) => (s, false),
            other => (print(&other), false),
        },
        Err(e) => (e.0, true),
    }
}

impl GitLabMcp {
    /// The tools that there are.
    pub closed spec fn tools(self) -> Registry {
        self.registry
    }

    /// How tools are carried out.
    pub closed spec fn executor(self) -> Executor {
        self.runner
    }

    /// A tool is called.
    pub open spec fn called(
        self,
        after: Registry,
        name: Seq<char>,
        args: Args,
        now: nat,
    ) -> StepView {
        match denial(self.tools(), name) {
            Some(e) => failed(e),
            None => self.executor().begun(
                self.tools(),
                after,
                self.tools().tools()[name],
                args,
                now,
            ),
        }
    }

    /// The category that a call exposes, where it does.
    pub open spec fn opens(self, name: Seq<char>, args: Args) -> Option<Seq<char>> {
        if denial(self.tools(), name) is Some {
            None
        } else {
            self.executor().opens(self.tools(), self.tools().tools()[name], args)
        }
    }

    /// A server for some tools.
    pub fn new(registry: Registry, executor: Executor) -> (r: Self)
        ensures
            r.tools() == registry,
            r.executor() == executor,
    {
        GitLabMcp { registry, runner: executor }
    }

    /// The ids of the categories that are not exposed.
    fn hidden_categories(&self) -> (r: Vec<String>)
        ensures
            strs(r@) == hidden_ids(self.tools().categories(), self.tools().exposed()),
    {
        let active = self.registry.active_categories();
        let sets = self.registry.toolsets();
        let mut out: Vec<String> = Vec::new();
        let ghost all = self.tools().categories();
        let ghost exposed = self.tools().exposed();
        assert(all.take(0) == Seq::<Toolset>::empty());
        assert(strs(out@) == Seq::<Seq<char>>::empty());
        for i in 0..sets.len()
            invariant
                active@ == exposed,
                sets@ == all,
                strs(out@) == hidden_ids(all.take(i as int), exposed),
        {
            assert(all.take(i + 1).drop_last() == all.take(i as int));
            if !active.contains(sets[i].id.as_str()) {
                let ghost held = out@;
                out.push(sets[i].id.clone());
                assert(strs(out@) == strs(held).push(sets@[i as int].id@));
            }
        }
        assert(all.take(sets@.len() as int) == all);
        out
    }

    /// What the model is told of the server.
    pub fn instructions(&self) -> (r: String)
        ensures
            r@ == instructions_for(self.tools()),
    {
        let hidden = self.hidden_categories();
        assert(strs(hidden@).len() == hidden@.len());
        let mut out = "GitLab API access. ".to_string();
        out.append(decimal_text(self.registry.visible().len() as u64).as_str());
        out.append(
            " tools are active. Project arguments accept either a numeric id or a URL-encoded path such as group/subgroup/project.",
        );
        if self.registry.read_only() {
            out.append(
                " The server runs in read-only mode, so no tool can change GitLab state.",
            );
        }
        if hidden.len() > 0 {
            out.append(" Further categories are available on request via discover_tools: ");
            out.append(joined(&hidden, ", ").as_str());
            out.append(".");
        }
        out
    }

    /// What the client is told of the tools that are offered, in the order of their
    /// names.
    pub fn list_tools(&self) -> (r: Vec<ToolListing>)
        ensures
            listings(r@) == self.tools().listing().map_values(
                |e: Arc<ToolEntry>| listing_of(&*e),
            ),
    {
        let entries = self.registry.visible();
        let mut out: Vec<ToolListing> = Vec::new();
        let ghost wanted = self.tools().listing().map_values(
            |e: Arc<ToolEntry>| listing_of(&*e),
        );
        for i in 0..entries.len()
            invariant
                entries@ == self.tools().listing(),
                wanted == self.tools().listing().map_values(
                    |e: Arc<ToolEntry>| listing_of(&*e),
                ),
                listings(out@) == wanted.take(i as int),
        {
            let ghost held = out@;
            let item = to_mcp_tool(&entries[i]);
            out.push(item);
            assert(wanted[i as int] == item@);
            assert(listings(out@) == listings(held).push(item@));
            assert(wanted.take(i + 1) == wanted.take(i as int).push(item@));
        }
        assert(wanted.take(entries@.len() as int) == wanted);
        out
    }

    /// What the client is told of one tool, whether it is offered or not.
    pub fn get_tool(&self, name: &str) -> (r: Option<ToolListing>)
        ensures
            match r {
                Some(t) => self.tools().tools().dom().contains(name@) && t@ == listing_of(
                    &*self.tools().tools()[name@],
                ),
                None => !self.tools().tools().dom().contains(name@),
            },
    {
        match self.registry.get(name) {
            Some(e) => Some(to_mcp_tool(&e)),
            None => None,
        }
    }

    /// A tool is called: refused, or begun.
    pub fn call_tool(&mut self, name: &str, args: JsonMap, now: u64) -> (r: Step)
        ensures
            r@ == old(self).called(final(self).tools(), name@, args.fields(), now as nat),
            opened(old(self).tools(), final(self).tools(), old(self).opens(name@, args.fields())),
            final(self).executor() == old(self).executor(),
    {
        let entry = match self.registry.get(name) {
            Some(e) => e,
            None => {
                return fail("unknown tool ".to_string().concat(quoted(name).as_str()));
            },
        };
        if !self.registry.is_callable(&entry) {
            let mut reason = name.to_string();
            if self.registry.read_only() && !entry.endpoint.read_only {
                reason.append(" changes GitLab state and the server is in read-only mode");
            } else {
                reason.append(" belongs to the inactive category ");
                reason.append(quoted(entry.endpoint.category.as_str()).as_str());
                reason.append("; call discover_tools with that category to enable it");
            }
            return fail(reason);
        }
        self.runner.call(&mut self.registry, &entry, args, now)
    }

    /// The request that a call goes out as.
    pub fn request(&self, call: &ApiCall) -> (r: HttpRequest)
        ensures
            r@ == self.executor().transport().request_for(call@),
    {
        self.runner.client().request(call)
    }

    /// A tool goes on with the reply to the call that it made.
    pub fn resume(
        &self,
        call: &ApiCall,
        task: Task,
        reply: Result<HttpReply, String>,
        now: u64,
    ) -> (r: Step)
        ensures
            r@ == self.executor().resumed(
                self.tools(),
                task@,
                self.executor().transport().answer_to(
                    call@,
                    match reply {
                        Ok(x) => Ok(x@),
                        Err(e) => Err(e@),
                    },
                ),
                now as nat,
            ),
    {
        let answered = self.runner.client().receive(call, reply);
        self.runner.resume(&self.registry, task, answered, now)
    }

    /// The name and value of the header that goes with every request.
    pub fn auth(&self) -> (r: (&str, &str))
        ensures
            (r.0@, r.1@) == self.executor().transport().credentials(),
    {
        self.runner.client().auth()
    }
}

// -------------------------------------------------------------------- laws

/// A tool that is unknown, not exposed, denied, or that changes state in read-only
/// mode is refused: nothing is sent, and no category is exposed.
pub proof fn law_refused_tools_send_nothing(
    server: GitLabMcp,
    after: Registry,
    name: Seq<char>,
    args: Args,
    now: nat,
)
    requires
        !server.tools().tools().dom().contains(name) || !server.tools().callable(
            &*server.tools().tools()[name],
        ),
    ensures
        denial(server.tools(), name) is Some,
        server.called(after, name, args, now) == failed(denial(server.tools(), name)->0),
        server.opens(name, args) is None,
{
}

/// Calling a tool never takes one away from the client: what could be called before
/// can be called after.
pub proof fn law_calls_only_widen(
    before: Registry,
    after: Registry,
    category: Option<Seq<char>>,
    entry: &ToolEntry,
)
    requires
        opened(before, after, category),
        before.callable(entry),
    ensures
        after.callable(entry),
{
}

/// Once its category is exposed, a tool may be called, unless its name is denied or it
/// changes state in read-only mode.
pub proof fn law_exposed_category_is_open(
    before: Registry,
    after: Registry,
    category: Seq<char>,
    entry: &ToolEntry,
)
    requires
        opened(before, after, Some(category)),
        entry.endpoint.category@ == category,
        before.guarded() ==> entry.endpoint.read_only,
        !before.denies(entry.meta.name@),
    ensures
        after.callable(entry),
{
}

/// In read-only mode no call that is begun is one of a tool that changes state.
pub proof fn law_read_only_calls_change_nothing(server: GitLabMcp, name: Seq<char>)
    requires
        server.tools().guarded(),
        denial(server.tools(), name) is None,
    ensures
        server.tools().tools().dom().contains(name),
        server.tools().tools()[name].endpoint.read_only,
{
}

} // verus!
