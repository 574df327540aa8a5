//! The tool catalogue: GitLab operations described as data.

use crate::config::{Config, SelectionView, ToolsetSelection};
use crate::json::{Json, JsonMap};
use crate::pattern::regex_matches;
use crate::strmap::{StrMap, in_order, lemma_map_of_finite, lemma_set_in_order};
use crate::strset::StrSet;
use crate::text::same;
use std::sync::Arc;
use vstd::prelude::*;
use vstd::string::*;

verus! {

/// What the client is told of a tool.
#[derive(Debug)]
pub struct ToolMeta {
    pub name: String,
    pub description: String,
    pub input_schema: JsonMap,
}

/// A category of tools.
#[derive(Debug)]
pub struct Toolset {
    pub id: String,
    pub is_default: bool,
    pub tools: Vec<String>,
}

/// How a tool is carried out.
#[derive(Debug, Clone, Copy, PartialEq, Eq, Structural, Default)]
pub enum Kind {
    /// A single REST call.
    #[default]
    Rest,
    /// A GraphQL document.
    Graphql,
    /// Several calls, or a polling loop.
    Composite,
    /// Answered by the server itself, without touching GitLab.
    Local,
}

/// One alternative path, chosen by whether an argument is present.
#[derive(Debug)]
pub struct PathVariant {
    pub when: VariantCondition,
    pub method: Option<String>,
    pub path: String,
    pub path_params: Vec<String>,
}

/// The argument that a path depends on, and whether it must be there.
#[derive(Debug)]
pub struct VariantCondition {
    pub param: String,
    pub present: bool,
}

/// A REST lookup performed before the main call, to turn a numeric id into the
/// full path that GraphQL requires.
#[derive(Debug)]
pub struct PreStep {
    pub when: Option<String>,
    pub arg: String,
    pub method: String,
    pub path: String,
    pub field: String,
    /// Name the resolved value is stored under. Kept for readability of the
    /// data file; the executor keys resolutions by their source argument.
    pub into: String,
}

/// Where the value of a GraphQL variable comes from.
#[derive(Debug)]
pub struct VariableSource {
    pub from: Option<String>,
    pub default: Option<Json>,
    pub transform: Option<String>,
    pub value: Option<Json>,
}

/// How a tool maps onto the GitLab API.
#[derive(Debug)]
pub struct Endpoint {
    pub kind: Kind,
    pub category: String,
    pub read_only: bool,
    pub destructive: bool,
    pub method: Option<String>,
    pub path: Option<String>,
    pub path_params: Vec<String>,
    pub path_variants: Vec<PathVariant>,
    /// GraphQL document, for `Kind::Graphql`.
    pub query: Option<String>,
    pub variables: StrMap<VariableSource>,
    pub pre_step: Option<PreStep>,
    pub result_path: Vec<String>,
    /// Arguments that belong in the query string even on a write request.
    pub query_params: Vec<String>,
    /// Response fields stripped before the result reaches the model.
    pub redact: Vec<String>,
    /// How to reshape a list response so pagination is visible to the caller.
    pub wrap: Option<String>,
}

/// A tool and its endpoint.
#[derive(Debug)]
pub struct ToolEntry {
    pub meta: ToolMeta,
    pub endpoint: Arc<Endpoint>,
}

/// A tool that the catalogue has no endpoint for.
#[derive(Debug)]
pub struct UnmappedTool(pub String);

impl UnmappedTool {
    /// The problem in words.
    pub fn message(&self) -> (r: String)
        ensures
            r@ == "no endpoint mapping for tool "@ + self.0@,
    {
        "no endpoint mapping for tool ".to_string().concat(self.0.as_str())
    }
}

/// The tools, which of them are offered, and which never are.
pub struct Registry {
    entries: StrMap<Arc<ToolEntry>>,
    toolsets: Vec<Toolset>,
    /// Categories exposed right now. `discover_tools` can widen this at runtime.
    active: StrSet,
    read_only: bool,
    denied: Option<regex::Regex>,
}

// ------------------------------------------------------------------- model

/// How many tools at the head of a list have an endpoint.
pub open spec fn mapped(tools: Seq<ToolMeta>, endpoints: Map<Seq<char>, Arc<Endpoint>>) -> nat
    decreases tools.len(),
{
    if tools.len() == 0 {
        0
    } else {
        let head = mapped(tools.drop_last(), endpoints);
        if head == tools.len() - 1 && endpoints.dom().contains(tools.last().name@) {
            tools.len()
        } else {
            head
        }
    }
}

/// The catalogue of a list of tools; where a name comes twice, the later tool
/// counts.
pub open spec fn catalogue(
    tools: Seq<ToolMeta>,
    endpoints: Map<Seq<char>, Arc<Endpoint>>,
) -> Map<Seq<char>, ToolEntry>
    decreases tools.len(),
{
    if tools.len() == 0 {
        Map::empty()
    } else {
        catalogue(tools.drop_last(), endpoints).insert(
            tools.last().name@,
            ToolEntry { meta: tools.last(), endpoint: endpoints[tools.last().name@] },
        )
    }
}

/// Whether a selection takes in a category.
pub open spec fn selected(selection: SelectionView, set: Toolset) -> bool {
    match selection {
        SelectionView::All => true,
        SelectionView::Defaults => set.is_default,
        SelectionView::Explicit(ids) => ids.contains(set.id@),
    }
}

/// The ids of the categories that a selection takes in.
pub open spec fn selected_ids(selection: SelectionView, sets: Seq<Toolset>) -> Set<Seq<char>>
    decreases sets.len(),
{
    if sets.len() == 0 {
        Set::empty()
    } else {
        let head = selected_ids(selection, sets.drop_last());
        if selected(selection, sets.last()) {
            head.insert(sets.last().id@)
        } else {
            head
        }
    }
}

/// A set, with one string more where a switch is on.
pub open spec fn with_switch(set: Set<Seq<char>>, on: bool, id: Seq<char>) -> Set<Seq<char>> {
    if on {
        set.insert(id)
    } else {
        set
    }
}

/// The categories that are offered at startup.
pub open spec fn first_categories(cfg: Config, sets: Seq<Toolset>) -> Set<Seq<char>> {
    with_switch(
        with_switch(
            with_switch(
                selected_ids(cfg.toolsets@, sets).insert("core"@),
                cfg.use_wiki,
                "wiki"@,
            ),
            cfg.use_milestone,
            "milestones"@,
        ),
        cfg.use_pipeline,
        "pipelines"@,
    )
}

/// Whether some category has that id.
pub open spec fn known_category(sets: Seq<Toolset>, id: Seq<char>) -> bool {
    exists|i: int| 0 <= i < sets.len() && #[trigger] sets[i].id@ == id
}

impl Registry {
    /// The tools by name.
    pub closed spec fn tools(self) -> Map<Seq<char>, Arc<ToolEntry>> {
        self.entries@
    }

    /// The categories that there are.
    pub closed spec fn categories(self) -> Seq<Toolset> {
        self.toolsets@
    }

    /// The ids of the categories that are exposed now.
    pub closed spec fn exposed(self) -> Set<Seq<char>> {
        self.active@
    }

    /// Whether only tools that change nothing are offered.
    pub closed spec fn guarded(self) -> bool {
        self.read_only
    }

    /// The names that are never offered.
    pub closed spec fn banned(self) -> Option<regex::Regex> {
        self.denied
    }

    /// Whether a tool's name is denied.
    pub open spec fn denies(self, name: Seq<char>) -> bool {
        self.banned() is Some && regex_matches(self.banned()->0, name)
    }

    /// Whether a tool may be called, given whether its name is denied: it changes
    /// nothing where nothing may be changed, and its category is exposed.
    pub open spec fn open_to(self, entry: &ToolEntry, denied: bool) -> bool {
        &&& self.guarded() ==> entry.endpoint.read_only
        &&& !denied
        &&& self.exposed().contains(entry.endpoint.category@)
    }

    /// Whether a tool may be called.
    pub open spec fn callable(self, entry: &ToolEntry) -> bool {
        self.open_to(entry, self.denies(entry.meta.name@))
    }

    /// The tools of some names that may be called, in the order of the names.
    pub open spec fn offered(self, names: Seq<Seq<char>>) -> Seq<Arc<ToolEntry>>
        decreases names.len(),
    {
        if names.len() == 0 {
            seq![]
        } else {
            let head = self.offered(names.drop_last());
            if self.callable(&*self.tools()[names.last()]) {
                head.push(self.tools()[names.last()])
            } else {
                head
            }
        }
    }

    /// The tools that are offered, in the order of their names.
    pub open spec fn listing(self) -> Seq<Arc<ToolEntry>> {
        self.offered(in_order(self.tools().dom()))
    }
}

/// Whether a table holds the tools of a catalogue.
pub open spec fn holds(
    table: Map<Seq<char>, Arc<ToolEntry>>,
    catalogue: Map<Seq<char>, ToolEntry>,
) -> bool {
    &&& table.dom() == catalogue.dom()
    &&& forall|name: Seq<char>|
        catalogue.dom().contains(name) ==> *#[trigger] table[name] == catalogue[name]
}

/// The head of a list that has an endpoint throughout is counted whole.
proof fn lemma_mapped_head(tools: Seq<ToolMeta>, endpoints: Map<Seq<char>, Arc<Endpoint>>, n: int)
    requires
        0 <= n <= tools.len(),
    ensures
        mapped(tools.take(n), endpoints) <= mapped(tools, endpoints),
        mapped(tools, endpoints) <= tools.len(),
        mapped(tools.take(n), endpoints) < n ==> mapped(tools, endpoints) == mapped(
            tools.take(n),
            endpoints,
        ),
    decreases tools.len(),
{
    if n < tools.len() {
        assert(tools.drop_last().take(n) == tools.take(n));
        lemma_mapped_head(tools.drop_last(), endpoints, n);
    } else {
        assert(tools.take(n) == tools);
        if tools.len() > 0 {
            lemma_mapped_head(tools.drop_last(), endpoints, n - 1);
        }
    }
}

// -------------------------------------------------------------- operations

impl Registry {
    /// Pairs every tool with its endpoint and opens the categories that the
    /// settings ask for.
    pub fn load(
        cfg: &Config,
        tools: Vec<ToolMeta>,
        toolsets: Vec<Toolset>,
        endpoints: &StrMap<Arc<Endpoint>>,
    ) -> (r: Result<Self, UnmappedTool>)
        ensures
            match r {
                Ok(reg) => {
                    &&& mapped(tools@, endpoints@) == tools@.len()
                    &&& holds(reg.tools(), catalogue(tools@, endpoints@))
                    &&& reg.categories() == toolsets@
                    &&& reg.exposed() == first_categories(*cfg, toolsets@)
                    &&& reg.guarded() == cfg.read_only
                    &&& reg.banned() == cfg.denied_tools
                },
                Err(e) => {
                    &&& mapped(tools@, endpoints@) < tools@.len()
                    &&& e.0@ == tools@[mapped(tools@, endpoints@) as int].name@
                },
            },
    {
        let mut entries: StrMap<Arc<ToolEntry>> = StrMap::new();
        let ghost all = tools@;
        assert(all.take(0) == Seq::<ToolMeta>::empty());
        for meta in it: tools
            invariant
                it.seq() == all,
                mapped(all.take(it.index() as int), endpoints@) == it.index(),
                holds(entries@, catalogue(all.take(it.index() as int), endpoints@)),
        {
            let ghost n = it.index() as int;
            assert(all.take(n + 1).drop_last() == all.take(n));
            assert(all.take(n + 1).last() == meta);
            let endpoint = match endpoints.get(meta.name.as_str()) {
                Some(e) => e.clone(),
                None => {
                    proof {
                        lemma_mapped_head(all, endpoints@, n + 1);
                    }
                    return Err(UnmappedTool(meta.name));
                },
            };
            let ghost held = entries@;
            entries.insert(meta.name.clone(), Arc::new(ToolEntry { meta, endpoint }));
            assert(entries@.dom() =~= catalogue(all.take(n + 1), endpoints@).dom());
        }
        assert(all.take(all.len() as int) == all);
        let active = initial_categories(cfg, &toolsets);
        let denied = match &cfg.denied_tools {
            Some(re) => Some(re.clone()),
            None => None,
        };
        Ok(Registry { entries, toolsets, active, read_only: cfg.read_only, denied })
    }

    /// The tool of a name.
    pub fn get(&self, name: &str) -> (r: Option<Arc<ToolEntry>>)
        ensures
            match r {
                Some(e) => self.tools().dom().contains(name@) && self.tools()[name@] == e,
                None => !self.tools().dom().contains(name@),
            },
    {
        match self.entries.get(name) {
            Some(e) => Some(e.clone()),
            None => None,
        }
    }

    /// Tools currently offered to the client.
    pub fn visible(&self) -> (r: Vec<Arc<ToolEntry>>)
        ensures
            r@ == self.listing(),
    {
        let mut out: Vec<Arc<ToolEntry>> = Vec::new();
        let count: usize = self.entries.len();
        let ghost names = in_order(self.tools().dom());
        for i in 0..count
            invariant
                names == in_order(self.tools().dom()),
                count == names.len(),
                count == self.entries.pairs().len(),
                out@ == self.offered(names.take(i as int)),
        {
            let (_name, entry) = self.entries.entry(i);
            assert(names.take(i + 1).drop_last() == names.take(i as int));
            if self.is_callable(entry) {
                out.push(entry.clone());
            }
        }
        assert(names.take(count as int) == names);
        out
    }

    /// Whether a tool may be called, independent of whether it is listed.
    pub fn is_callable(&self, entry: &ToolEntry) -> (r: bool)
        ensures
            r == self.callable(entry),
    {
        let denied = match &self.denied {
            Some(re) => re.is_match(entry.meta.name.as_str()),
            None => false,
        };
        self.is_allowed(entry, denied)
    }

    /// Whether a tool may be called, given whether its name is denied.
    pub fn is_allowed(&self, entry: &ToolEntry, denied: bool) -> (r: bool)
        ensures
            r == self.open_to(entry, denied),
    {
        if self.read_only && !entry.endpoint.read_only {
            return false;
        }
        if denied {
            return false;
        }
        self.active.contains(entry.endpoint.category.as_str())
    }

    /// The categories that there are.
    pub fn toolsets(&self) -> (r: &Vec<Toolset>)
        ensures
            r@ == self.categories(),
    {
        &self.toolsets
    }

    /// The categories that are exposed now.
    pub fn active_categories(&self) -> (r: StrSet)
        ensures
            r@ == self.exposed(),
    {
        self.active.copy()
    }

    /// Turn on one category. Returns false when the id is unknown.
    pub fn activate(&mut self, category: &str) -> (r: bool)
        ensures
            r == known_category(old(self).categories(), category@),
            final(self).exposed() == (if r {
                old(self).exposed().insert(category@)
            } else {
                old(self).exposed()
            }),
            final(self).tools() == old(self).tools(),
            final(self).categories() == old(self).categories(),
            final(self).guarded() == old(self).guarded(),
            final(self).banned() == old(self).banned(),
    {
        let mut found = false;
        for i in 0..self.toolsets.len()
            invariant
                found == exists|j: int| 0 <= j < i && #[trigger] self.toolsets@[j].id@ == category@,
        {
            if same(self.toolsets[i].id.as_str(), category) {
                found = true;
            }
        }
        if !found {
            return false;
        }
        self.active.insert(category.to_string());
        true
    }

    /// Whether only tools that change nothing are offered.
    pub fn read_only(&self) -> (r: bool)
        ensures
            r == self.guarded(),
    {
        self.read_only
    }
}

/// The categories that are offered at startup: those that the settings select, the
/// one that holds the server's own tools, and those that have a switch of their
/// own.
pub fn initial_categories(cfg: &Config, toolsets: &Vec<Toolset>) -> (r: StrSet)
    ensures
        r@ == first_categories(*cfg, toolsets@),
{
    let mut active = StrSet::new();
    assert(toolsets@.take(0) == Seq::<Toolset>::empty());
    for i in 0..toolsets.len()
        invariant
            active@ == selected_ids(cfg.toolsets@, toolsets@.take(i as int)),
    {
        assert(toolsets@.take(i + 1).drop_last() == toolsets@.take(i as int));
        let set = &toolsets[i];
        let wanted = match &cfg.toolsets {
            ToolsetSelection::All => true,
            ToolsetSelection::Defaults => set.is_default,
            ToolsetSelection::Explicit(ids) => ids.contains(set.id.as_str()),
        };
        if wanted {
            active.insert(set.id.clone());
        }
    }
    assert(toolsets@.take(toolsets@.len() as int) == toolsets@);
    // The server's own tools belong to no category that can be chosen.
    active.insert("core".to_string());
    if cfg.use_wiki {
        active.insert("wiki".to_string());
    }
    if cfg.use_milestone {
        active.insert("milestones".to_string());
    }
    if cfg.use_pipeline {
        active.insert("pipelines".to_string());
    }
    active
}

// -------------------------------------------------------------------- laws

/// What is offered of some names is what may be called of them.
proof fn lemma_offered(reg: Registry, names: Seq<Seq<char>>, entry: Arc<ToolEntry>)
    ensures
        (exists|i: int| 0 <= i < reg.offered(names).len() && #[trigger] reg.offered(names)[i] == entry)
            <==> (reg.callable(&*entry) && exists|j: int|
            0 <= j < names.len() && reg.tools()[#[trigger] names[j]] == entry),
    decreases names.len(),
{
    if names.len() > 0 {
        let head = names.drop_last();
        lemma_offered(reg, head, entry);
        let some = reg.offered(head);
        let all = reg.offered(names);
        if exists|i: int| 0 <= i < all.len() && #[trigger] all[i] == entry {
            let i = choose|i: int| 0 <= i < all.len() && #[trigger] all[i] == entry;
            if i < some.len() {
                assert(some[i] == all[i]);
                let j = choose|j: int|
                    0 <= j < head.len() && reg.tools()[#[trigger] head[j]] == entry;
                assert(names[j] == head[j]);
            } else {
                assert(reg.tools()[names[names.len() - 1]] == entry);
            }
        }
        if reg.callable(&*entry) && exists|j: int|
            0 <= j < names.len() && reg.tools()[#[trigger] names[j]] == entry {
            let j = choose|j: int|
                0 <= j < names.len() && reg.tools()[#[trigger] names[j]] == entry;
            if j < head.len() {
                assert(head[j] == names[j]);
                let i = choose|i: int| 0 <= i < some.len() && #[trigger] some[i] == entry;
                assert(all[i] == some[i]);
            } else {
                assert(all[all.len() - 1] == entry);
            }
        }
    }
}

/// A tool of the catalogue is listed just when it may be called.
pub proof fn law_listed_iff_callable(reg: Registry, name: Seq<char>)
    requires
        reg.tools().dom().contains(name),
    ensures
        reg.callable(&*reg.tools()[name]) <==> exists|i: int|
            0 <= i < reg.listing().len() && #[trigger] reg.listing()[i] == reg.tools()[name],
{
    let names = in_order(reg.tools().dom());
    lemma_map_of_finite(reg.entries.pairs());
    lemma_set_in_order(reg.tools().dom());
    lemma_offered(reg, names, reg.tools()[name]);
    assert(names.to_set().contains(name));
    let j = choose|j: int| 0 <= j < names.len() && names[j] == name;
    assert(reg.tools()[names[j]] == reg.tools()[name]);
    assert(reg.listing() == reg.offered(names));
    if reg.callable(&*reg.tools()[name]) {
        let i = choose|i: int|
            0 <= i < reg.offered(names).len() && #[trigger] reg.offered(names)[i]
                == reg.tools()[name];
        assert(reg.listing()[i] == reg.tools()[name]);
    } else if exists|i: int|
        0 <= i < reg.listing().len() && #[trigger] reg.listing()[i] == reg.tools()[name] {
        let i = choose|i: int|
            0 <= i < reg.listing().len() && #[trigger] reg.listing()[i] == reg.tools()[name];
        assert(reg.offered(names)[i] == reg.tools()[name]);
    }
}

/// A tool that changes state is refused in read-only mode, and one whose name is
/// denied always is, whatever categories are exposed.
pub proof fn law_refused_whatever_is_exposed(reg: Registry, entry: &ToolEntry)
    requires
        (reg.guarded() && !entry.endpoint.read_only) || reg.denies(entry.meta.name@),
    ensures
        !reg.callable(entry),
{
}

/// Exposing more categories takes no tool away.
pub proof fn law_exposing_widens(narrow: Registry, wide: Registry, entry: &ToolEntry)
    requires
        narrow.exposed().subset_of(wide.exposed()),
        wide.guarded() == narrow.guarded(),
        wide.banned() == narrow.banned(),
        narrow.callable(entry),
    ensures
        wide.callable(entry),
{
}

/// The category of the server's own tools is exposed from the start, whatever is
/// selected.
pub proof fn law_core_is_exposed(cfg: Config, sets: Seq<Toolset>)
    ensures
        first_categories(cfg, sets).contains("core"@),
{
}

/// Everything that is listed may be called: it is exposed, it is not denied, and in
/// read-only mode it changes nothing.
pub proof fn law_listing_keeps_the_bounds(reg: Registry, i: int)
    requires
        0 <= i < reg.listing().len(),
    ensures
        reg.callable(&*reg.listing()[i]),
        reg.guarded() ==> reg.listing()[i].endpoint.read_only,
        !reg.denies(reg.listing()[i].meta.name@),
{
    let names = in_order(reg.tools().dom());
    let entry = reg.listing()[i];
    lemma_offered(reg, names, entry);
    assert(reg.offered(names)[i] == entry);
}

} // verus!
