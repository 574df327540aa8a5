//! Finding one webhook event: GitLab exposes no single-event endpoint, so the
//! event list is paged through.

use crate::args::{Args, arg_scalar, required, required_str, scalar_arg};
use crate::encode::{enc, segment};
use crate::error::{ToolError, err};
use crate::flow::{Stage, StageView, Step, StepView, fail, failed, get, get_call, send, sent,
    succeed, succeeded, two_pairs};
use crate::gitlab::{ApiError, ApiResponse, ErrorView, ResponseView, answer};
use crate::json::{Json, JsonMap, JsonView, views};
use crate::lists::{scalar_at, scalar_field};
use crate::registry::ToolEntry;
use crate::text::{decimal, decimal_text, opt_str, parse_number, parse_unsigned, same};
use std::sync::Arc;
use vstd::prelude::*;
use vstd::string::*;

verus! {

/// How many events a page holds.
pub const PER_PAGE: u64 = 20;

/// How many pages are searched.
pub const MAX_PAGES: u64 = 25;

/// What is searched for, and where.
pub struct Search {
    pub base: String,
    pub wanted: String,
    pub single_page: Option<String>,
}

/// A search as a mathematical value.
pub struct SearchView {
    pub base: Seq<char>,
    pub wanted: Seq<char>,
    pub single_page: Option<Seq<char>>,
}

impl View for Search {
    type V = SearchView;

    open spec fn view(&self) -> SearchView {
        SearchView {
            base: self.base@,
            wanted: self.wanted@,
            single_page: opt_str(self.single_page),
        }
    }
}

/// A search, or what is missing for it.
pub open spec fn search_seen(r: Result<Search, ToolError>) -> Result<SearchView, Seq<char>> {
    match r {
        Ok(s) => Ok(s@),
        Err(e) => Err(e.0@),
    }
}

/// The event list of a hook.
pub open spec fn events_path(owners: Seq<char>, owner: Seq<char>, hook: Seq<char>) -> Seq<char> {
    owners + segment(owner) + "/hooks/"@ + segment(hook) + "/events"@
}

/// The search that the arguments ask for: in a project where one is named, else in
/// a group.
pub open spec fn search_for(args: Args) -> Result<SearchView, Seq<char>> {
    match required(args, "hook_id"@) {
        Err(e) => Err(e),
        Ok(hook) => {
            let base = match arg_scalar(args, "project_id"@) {
                Some(p) => Ok(events_path("/projects/"@, p, hook)),
                None => match required(args, "group_id"@) {
                    Ok(g) => Ok(events_path("/groups/"@, g, hook)),
                    Err(e) => Err(e),
                },
            };
            match base {
                Err(e) => Err(e),
                Ok(base) => match arg_scalar(args, "event_id"@) {
                    None => Err("event_id is required"@),
                    Some(wanted) => Ok(
                        SearchView { base, wanted, single_page: arg_scalar(args, "page"@) },
                    ),
                },
            }
        },
    }
}

/// The page that a search begins with: the one that was asked for, the first where
/// that is no number, and the first where none was.
pub open spec fn first_page(single_page: Option<Seq<char>>) -> nat {
    match single_page {
        Some(p) => match parse_unsigned(p, u64::MAX as nat) {
            Some(n) => n,
            None => 1,
        },
        None => 1,
    }
}

/// A page of events is asked for.
pub open spec fn page_sent(entry: Arc<ToolEntry>, args: Args, search: SearchView, page: nat) -> StepView {
    sent(
        get_call(
            search.base,
            seq![("page"@, decimal(page)), ("per_page"@, decimal(PER_PAGE as nat))],
        ),
        entry,
        args,
        StageView::Webhook { page },
    )
}

/// A search begins.
pub open spec fn search_begun(entry: Arc<ToolEntry>, args: Args) -> StepView {
    match search_for(args) {
        Err(e) => failed(e),
        Ok(search) => page_sent(entry, args, search, first_page(search.single_page)),
    }
}

/// The first item from a position on that has an id.
pub open spec fn item_from(items: Seq<JsonView>, id: Seq<char>, from: int) -> Option<int>
    decreases items.len() - from,
{
    if from < 0 || from >= items.len() {
        None
    } else if scalar_field(items[from], "id"@) == Some(id) {
        Some(from)
    } else {
        item_from(items, id, from + 1)
    }
}

/// A search that found nothing, in words.
pub open spec fn not_found(search: SearchView) -> Seq<char> {
    match search.single_page {
        Some(p) => "webhook event "@ + search.wanted + " was not found on page "@ + p,
        None => "webhook event "@ + search.wanted + " was not found in the "@ + decimal(
            (PER_PAGE * MAX_PAGES) as nat,
        ) + " most recent events"@,
    }
}

/// Whether a search goes on after a page: no single page was asked for, there are
/// pages left, and this one was full.
pub open spec fn goes_on(search: SearchView, page: nat, found: nat) -> bool {
    search.single_page is None && page < MAX_PAGES && found >= PER_PAGE
}

/// A search goes on with a page of events.
pub open spec fn page_read(
    entry: Arc<ToolEntry>,
    args: Args,
    page: nat,
    reply: Result<ResponseView, ErrorView>,
) -> StepView {
    match search_for(args) {
        Err(e) => failed(e),
        Ok(search) => match reply {
            Err(e) => failed(e.text()),
            Ok(resp) => match resp.body {
                JsonView::Array(items) => match item_from(items, search.wanted, 0) {
                    Some(i) => succeeded(items[i]),
                    None => if goes_on(search, page, items.len()) {
                        page_sent(entry, args, search, page + 1)
                    } else {
                        failed(not_found(search))
                    },
                },
                other => succeeded(other),
            },
        },
    }
}

/// The event list of a hook.
fn path_of_events(owners: &str, owner: &str, hook: &str) -> (r: String)
    ensures
        r@ == events_path(owners@, owner@, hook@),
{
    let mut out = owners.to_string();
    out.append(enc(owner).as_str());
    out.append("/hooks/");
    out.append(enc(hook).as_str());
    out.append("/events");
    out
}

/// The search that the arguments ask for.
fn read_search(args: &JsonMap) -> (r: Result<Search, ToolError>)
    ensures
        search_seen(r) == search_for(args.fields()),
{
    let hook = match required_str(args, "hook_id") {
        Ok(h) => h,
        Err(e) => {
            return Err(e);
        },
    };
    let base = match scalar_arg(args, "project_id") {
        Some(p) => path_of_events("/projects/", p.as_str(), hook.as_str()),
        None => match required_str(args, "group_id") {
            Ok(g) => path_of_events("/groups/", g.as_str(), hook.as_str()),
            Err(e) => {
                return Err(e);
            },
        },
    };
    match scalar_arg(args, "event_id") {
        Some(wanted) => Ok(Search { base, wanted, single_page: scalar_arg(args, "page") }),
        None => err("event_id is required"),
    }
}

/// A page of events is asked for.
fn ask_page(entry: &Arc<ToolEntry>, args: JsonMap, search: Search, page: u64) -> (r: Step)
    ensures
        r@ == page_sent(*entry, args.fields(), search@, page as nat),
{
    let query = two_pairs(
        "page",
        decimal_text(page).as_str(),
        "per_page",
        decimal_text(PER_PAGE).as_str(),
    );
    send(get(search.base, query), entry, args, Stage::Webhook { page })
}

/// A search begins.
pub fn get_webhook_event(entry: &Arc<ToolEntry>, args: JsonMap) -> (r: Step)
    ensures
        r@ == search_begun(*entry, args.fields()),
{
    let search = match read_search(&args) {
        Ok(s) => s,
        Err(e) => {
            return fail(e.0);
        },
    };
    let page: u64 = match &search.single_page {
        Some(p) => match parse_number(p.as_str(), u64::MAX) {
            Some(n) => n,
            None => 1,
        },
        None => 1,
    };
    ask_page(entry, args, search, page)
}

/// The first item that has an id.
fn find_item(items: &Vec<Json>, id: &str) -> (r: Option<usize>)
    ensures
        match r {
            Some(i) => i < items@.len() && item_from(views(items@), id@, 0) == Some(i as int),
            None => item_from(views(items@), id@, 0) is None,
        },
{
    for i in 0..items.len()
        invariant
            item_from(views(items@), id@, 0) == item_from(views(items@), id@, i as int),
    {
        assert(views(items@)[i as int] == items@[i as int]@);
        if let Some(found) = scalar_at(&items[i], "id") {
            if same(found.as_str(), id) {
                return Some(i);
            }
        }
    }
    None
}

/// A search that found nothing, in words.
fn not_found_text(search: &Search) -> (r: String)
    ensures
        r@ == not_found(search@),
{
    let mut out = "webhook event ".to_string();
    out.append(search.wanted.as_str());
    match &search.single_page {
        Some(p) => {
            out.append(" was not found on page ");
            out.append(p.as_str());
        },
        None => {
            out.append(" was not found in the ");
            out.append(decimal_text(PER_PAGE * MAX_PAGES).as_str());
            out.append(" most recent events");
        },
    }
    out
}

/// A search goes on with a page of events.
pub fn on_webhook_page(
    entry: &Arc<ToolEntry>,
    args: JsonMap,
    page: u64,
    reply: Result<ApiResponse, ApiError>,
) -> (r: Step)
    ensures
        r@ == page_read(*entry, args.fields(), page as nat, answer(reply)),
{
    let search = match read_search(&args) {
        Ok(s) => s,
        Err(e) => {
            return fail(e.0);
        },
    };
    let resp = match reply {
        Ok(resp) => resp,
        Err(e) => {
            return fail(e.text());
        },
    };
    let found: usize = match resp.body.as_array() {
        Some(items) => {
            if let Some(i) = find_item(items, search.wanted.as_str()) {
                assert(views(items@)[i as int] == items@[i as int]@);
                return succeed(items[i].copy());
            }
            items.len()
        },
        None => {
            return succeed(resp.body);
        },
    };
    if search.single_page.is_none() && page < MAX_PAGES && (found as u64) >= PER_PAGE {
        ask_page(entry, args, search, page + 1)
    } else {
        fail(not_found_text(&search))
    }
}

// -------------------------------------------------------------------- laws

/// A search asks for no page beyond the last that may be searched, whatever comes
/// back.
pub proof fn law_search_is_bounded(
    entry: Arc<ToolEntry>,
    args: Args,
    page: nat,
    reply: Result<ResponseView, ErrorView>,
)
    requires
        search_for(args) is Ok,
        page_read(entry, args, page, reply) is Send,
    ensures
        page < MAX_PAGES,
        search_for(args)->Ok_0.single_page is None,
        page_read(entry, args, page, reply) == page_sent(
            entry,
            args,
            search_for(args)->Ok_0,
            page + 1,
        ),
{
}

/// What a search hands back from a list is an item of it that has the wanted id, and
/// the first such.
pub proof fn law_found_item_has_the_id(items: Seq<JsonView>, id: Seq<char>, from: int)
    requires
        0 <= from,
    ensures
        match item_from(items, id, from) {
            Some(i) => {
                &&& from <= i < items.len()
                &&& scalar_field(items[i], "id"@) == Some(id)
                &&& forall|j: int|
                    from <= j < i ==> scalar_field(#[trigger] items[j], "id"@) != Some(id)
            },
            None => forall|j: int|
                from <= j < items.len() ==> scalar_field(#[trigger] items[j], "id"@) != Some(id),
        },
    decreases items.len() - from,
{
    if from < items.len() && scalar_field(items[from], "id"@) != Some(id) {
        law_found_item_has_the_id(items, id, from + 1);
    }
}

} // verus!
