//! Laws of the tools that find something: webhook events, users, one's own issues, and
//! whether the token works.

use crate::account::{user_from, users_from};
use crate::args::Args;
use crate::encode::segment;
use crate::exec::{Executor, composite_begun};
use crate::flow::{StageView, StepView, TaskView};
use crate::gitlab::{ErrorView, ResponseView};
use crate::json::JsonView;
use crate::laws::waits::{given, lemma_tool_names, reading, said};
use crate::laws::writes::last_call;
use crate::lists::scalars;
use crate::registry::{Registry, ToolEntry};
use crate::route::query_pairs;
use crate::text::{decimal, parse_unsigned};
use crate::webhook::{item_from, law_found_item_has_the_id};
use std::sync::Arc;
use vstd::prelude::*;
use vstd::string::*;

verus! {

// ---------------------------------------------------------- webhook events

/// Where the events of a hook are listed: in its project, or in its group.
pub open spec fn events_at(args: Args) -> Seq<char> {
    let hook = segment(said(args, "hook_id"@));
    if given(args, "project_id"@) {
        "/projects/"@ + segment(said(args, "project_id"@)) + "/hooks/"@ + hook + "/events"@
    } else {
        "/groups/"@ + segment(said(args, "group_id"@)) + "/hooks/"@ + hook + "/events"@
    }
}

/// Whether the arguments say which event is wanted.
pub open spec fn names_event(args: Args) -> bool {
    given(args, "hook_id"@) && (given(args, "project_id"@) || given(args, "group_id"@)) && given(
        args,
        "event_id"@,
    )
}

/// Whether a step asks for a page of twenty events.
pub open spec fn asks_page(step: StepView, entry: Arc<ToolEntry>, args: Args, page: nat) -> bool {
    step == StepView::Send(
        reading(events_at(args), seq![("page"@, decimal(page)), ("per_page"@, "20"@)]),
        TaskView { entry, args, stage: StageView::Webhook { page } },
    )
}

/// The event list is read from its first page on, or on the one page that is asked for.
pub proof fn law_searches_begin(entry: Arc<ToolEntry>, args: Args, n: nat, now: nat)
    requires
        entry.meta.name@ == "get_webhook_event"@,
    ensures
        names_event(args) && !given(args, "page"@) ==> asks_page(
            composite_begun(entry, args, now),
            entry,
            args,
            1,
        ),
        names_event(args) && given(args, "page"@) && parse_unsigned(
            said(args, "page"@),
            u64::MAX as nat,
        ) == Some(n) ==> asks_page(composite_begun(entry, args, now), entry, args, n),
        names_event(args) && given(args, "page"@) && parse_unsigned(
            said(args, "page"@),
            u64::MAX as nat,
        ) is None ==> asks_page(composite_begun(entry, args, now), entry, args, 1),
        !given(args, "hook_id"@) ==> composite_begun(entry, args, now) == StepView::Done(
            Err("hook_id"@ + " is required"@),
        ),
        given(args, "hook_id"@) && !given(args, "project_id"@) && !given(args, "group_id"@)
            ==> composite_begun(entry, args, now) == StepView::Done(
            Err("group_id"@ + " is required"@),
        ),
        given(args, "hook_id"@) && (given(args, "project_id"@) || given(args, "group_id"@))
            && !given(args, "event_id"@) ==> composite_begun(entry, args, now) == StepView::Done(
            Err("event_id is required"@),
        ),
{
    lemma_tool_names();
    lemma_twenty();
}

proof fn lemma_twenty()
    ensures
        decimal(20) == "20"@,
        decimal(500) == "500"@,
{
    reveal_strlit("20");
    reveal_strlit("500");
    reveal_with_fuel(decimal, 4);
    assert(decimal(20) =~= "20"@);
    assert(decimal(500) =~= "500"@);
}

/// Whether an item is the event that is wanted.
pub open spec fn is_event(item: JsonView, id: Seq<char>) -> bool {
    item matches JsonView::Object(m) && m.dom().contains("id"@) && m["id"@].scalar() == Some(id)
}

/// The first event of a page that has the wanted id is the result. Where the page has
/// none, the next one is read, as long as this one was full, no single page was asked
/// for and this was not the twenty-fifth. Otherwise the event was not found. What is no
/// list is handed back as it is.
pub proof fn law_searches_go_on(
    executor: Executor,
    reg: Registry,
    entry: Arc<ToolEntry>,
    args: Args,
    page: nat,
    resp: ResponseView,
    e: ErrorView,
    i: int,
    now: nat,
)
    requires
        names_event(args),
    ensures
        ({
            let task = TaskView { entry, args, stage: StageView::Webhook { page } };
            let next = executor.resumed(reg, task, Ok(resp), now);
            let id = said(args, "event_id"@);
            &&& executor.resumed(reg, task, Err(e), now) == StepView::Done(Err(e.text()))
            &&& !(resp.body is Array) ==> next == StepView::Done(Ok(resp.body))
            &&& resp.body matches JsonView::Array(items) ==> {
                let none = forall|j: int|
                    0 <= j < items.len() ==> !is_event(#[trigger] items[j], id);
                let more = !given(args, "page"@) && page < 25 && items.len() >= 20;
                &&& 0 <= i < items.len() && is_event(items[i], id) && (forall|j: int|
                    0 <= j < i ==> !is_event(#[trigger] items[j], id)) ==> next == StepView::Done(
                    Ok(items[i]),
                )
                &&& none && more ==> asks_page(next, entry, args, page + 1)
                &&& none && !more && given(args, "page"@) ==> next == StepView::Done(
                    Err(
                        "webhook event "@ + id + " was not found on page "@ + said(args, "page"@),
                    ),
                )
                &&& none && !more && !given(args, "page"@) ==> next == StepView::Done(
                    Err(
                        "webhook event "@ + id + " was not found in the "@ + "500"@
                            + " most recent events"@,
                    ),
                )
            }
        }),
{
    lemma_twenty();
    if let JsonView::Array(items) = resp.body {
        let id = said(args, "event_id"@);
        law_found_item_has_the_id(items, id, 0);
        match item_from(items, id, 0) {
            Some(k) => {
                assert(is_event(items[k], id));
                if 0 <= i < items.len() && is_event(items[i], id) && (forall|j: int|
                    0 <= j < i ==> !is_event(#[trigger] items[j], id)) {
                    if i < k {
                        assert(crate::lists::scalar_field(items[i], "id"@) != Some(id));
                    }
                    if k < i {
                        assert(!is_event(items[k], id));
                    }
                    assert(i == k);
                }
            },
            None => {
                if 0 <= i < items.len() && is_event(items[i], id) {
                    assert(crate::lists::scalar_field(items[i], "id"@) != Some(id));
                }
            },
        }
    }
}

// ------------------------------------------------------------------- users

/// Whether a user has a name.
pub open spec fn is_user(user: JsonView, name: Seq<char>) -> bool {
    user matches JsonView::Object(m) && m.dom().contains("username"@) && m["username"@]
        == JsonView::Str(name)
}

/// Users are looked up one by one, by name; once all are, the result says for every name
/// what was found.
pub proof fn law_users_are_looked_up(
    entry: Arc<ToolEntry>,
    args: Args,
    at: int,
    out: Args,
    now: nat,
)
    requires
        0 <= at,
    ensures
        entry.meta.name@ == "get_users"@ ==> composite_begun(entry, args, now) == users_from(
            entry,
            args,
            0,
            Map::<Seq<char>, JsonView>::empty(),
        ),
        !(args.dom().contains("usernames"@) && args["usernames"@] is Array) ==> users_from(
            entry,
            args,
            at,
            out,
        ) == StepView::Done(Err("usernames must be an array of strings"@)),
        args.dom().contains("usernames"@) && args["usernames"@] is Array ==> ({
            let names = args["usernames"@]->Array_0;
            let next = users_from(entry, args, at, out);
            &&& at >= names.len() ==> next == StepView::Done(Ok(JsonView::Object(out)))
            &&& at < names.len() && !(names[at] is Str) ==> next == StepView::Done(
                Err("usernames entries must be strings"@),
            )
            &&& at < names.len() && names[at] is Str ==> next == StepView::Send(
                reading("/users"@, seq![("username"@, names[at]->Str_0)]),
                TaskView { entry, args, stage: StageView::Users { at, out } },
            )
        }),
{
    lemma_tool_names();
}

proof fn lemma_user(users: Seq<JsonView>, name: Seq<char>, from: int)
    requires
        0 <= from,
    ensures
        match user_from(users, name, from) {
            Some(i) => from <= i < users.len() && is_user(users[i], name) && forall|j: int|
                from <= j < i ==> !is_user(#[trigger] users[j], name),
            None => forall|j: int| from <= j < users.len() ==> !is_user(#[trigger] users[j], name),
        },
    decreases users.len() - from,
{
    if from < users.len() {
        lemma_user(users, name, from + 1);
    }
}

/// What is found under a name is the first user of the reply that has this very name;
/// where there is none, and where the lookup failed, it is `null`. The next name is
/// looked up then.
pub proof fn law_users_are_found(
    executor: Executor,
    reg: Registry,
    entry: Arc<ToolEntry>,
    args: Args,
    at: int,
    out: Args,
    resp: ResponseView,
    e: ErrorView,
    i: int,
    now: nat,
)
    requires
        args.dom().contains("usernames"@),
        args["usernames"@] is Array,
        0 <= at < args["usernames"@]->Array_0.len(),
        args["usernames"@]->Array_0[at] is Str,
    ensures
        ({
            let name = args["usernames"@]->Array_0[at]->Str_0;
            let task = TaskView { entry, args, stage: StageView::Users { at, out } };
            let next = executor.resumed(reg, task, Ok(resp), now);
            let missed = users_from(entry, args, at + 1, out.insert(name, JsonView::Null));
            &&& executor.resumed(reg, task, Err(e), now) == missed
            &&& !(resp.body is Array) ==> next == missed
            &&& resp.body matches JsonView::Array(users) ==> {
                &&& 0 <= i < users.len() && is_user(users[i], name) && (forall|j: int|
                    0 <= j < i ==> !is_user(#[trigger] users[j], name)) ==> next == users_from(
                    entry,
                    args,
                    at + 1,
                    out.insert(name, users[i]),
                )
                &&& (forall|j: int| 0 <= j < users.len() ==> !is_user(#[trigger] users[j], name))
                    ==> next == missed
            }
        }),
{
    if let JsonView::Array(users) = resp.body {
        let name = args["usernames"@]->Array_0[at]->Str_0;
        lemma_user(users, name, 0);
        if 0 <= i < users.len() && is_user(users[i], name) && (forall|j: int|
            0 <= j < i ==> !is_user(#[trigger] users[j], name)) {
            let k = user_from(users, name, 0)->0;
            if k < i {
                assert(!is_user(users[k], name));
            }
            assert(k == i);
        }
    }
}

// ------------------------------------------------------------------ health

/// Whether a step reports an instance: where it is and whether the token works.
pub open spec fn reports(step: StepView, works: bool, url: Seq<char>) -> bool {
    &&& step is Done
    &&& step->Done_0 is Ok
    &&& step->Done_0->Ok_0 is Object
    &&& ({
        let m = step->Done_0->Ok_0->Object_0;
        &&& m.dom().contains("status"@) && m.dom().contains("authenticated"@) && m.dom().contains(
            "gitlab_url"@,
        )
        &&& m["status"@] == JsonView::Str(
            if works {
                "ok"@
            } else {
                "error"@
            },
        )
        &&& m["authenticated"@] == JsonView::Bool(works)
        &&& m["gitlab_url"@] == JsonView::Str(url)
    })
}

/// Whether a step reports a token that does not work, and why.
pub open spec fn reports_error(step: StepView, url: Seq<char>, error: Seq<char>) -> bool {
    &&& reports(step, false, url)
    &&& step->Done_0->Ok_0->Object_0.dom() == set![
        "status"@,
        "authenticated"@,
        "gitlab_url"@,
        "error"@,
    ]
    &&& step->Done_0->Ok_0->Object_0["error"@] == JsonView::Str(error)
}

proof fn lemma_health_keys()
    ensures
        "status"@.len() == 6,
        "authenticated"@.len() == 13,
        "gitlab_url"@.len() == 10,
        "gitlab_url"@[0] == 'g',
        "error"@.len() == 5,
        "version"@.len() == 7,
        "revision"@.len() == 8,
        "enterprise"@.len() == 10,
        "enterprise"@[0] == 'e',
{
    reveal_strlit("status");
    reveal_strlit("authenticated");
    reveal_strlit("gitlab_url");
    reveal_strlit("error");
    reveal_strlit("version");
    reveal_strlit("revision");
    reveal_strlit("enterprise");
}

/// The token is tried as a user's; where that is refused, as a job's. A token that works
/// has the version asked for; one that does not is reported, with the first reason.
pub proof fn law_health_is_tried(
    executor: Executor,
    reg: Registry,
    entry: Arc<ToolEntry>,
    args: Args,
    error: Seq<char>,
    resp: ResponseView,
    e: ErrorView,
    now: nat,
)
    requires
        entry.meta.name@ == "health_check"@,
    ensures
        ({
            let begin = TaskView { entry, args, stage: StageView::Health };
            let as_job = TaskView { entry, args, stage: StageView::HealthJob { error } };
            let version = StepView::Send(
                reading("/version"@, seq![]),
                TaskView { entry, args, stage: StageView::HealthVersion },
            );
            &&& composite_begun(entry, args, now) == StepView::Send(
                reading("/user"@, seq![]),
                begin,
            )
            &&& executor.resumed(reg, begin, Ok(resp), now) == version
            &&& e.status == 401 || e.status == 403 ==> executor.resumed(reg, begin, Err(e), now)
                == StepView::Send(
                reading("/job"@, seq![]),
                TaskView { entry, args, stage: StageView::HealthJob { error: e.text() } },
            )
            &&& e.status != 401 && e.status != 403 ==> reports_error(
                executor.resumed(reg, begin, Err(e), now),
                executor.url(),
                e.text(),
            )
            &&& executor.resumed(reg, as_job, Ok(resp), now) == version
            &&& reports_error(
                executor.resumed(reg, as_job, Err(e), now),
                executor.url(),
                error,
            )
        }),
{
    lemma_tool_names();
    lemma_health_keys();
    let begin = TaskView { entry, args, stage: StageView::Health };
    let as_job = TaskView { entry, args, stage: StageView::HealthJob { error } };
    let a = executor.resumed(reg, begin, Err(e), now);
    let b = executor.resumed(reg, as_job, Err(e), now);
    let keys = set!["status"@, "authenticated"@, "gitlab_url"@, "error"@];
    assert(b->Done_0->Ok_0->Object_0.dom() =~= keys);
    if e.status != 401 && e.status != 403 {
        assert(a->Done_0->Ok_0->Object_0.dom() =~= keys);
    }
}

/// A token that works is reported with the version, the revision and the edition of the
/// instance, as far as it names them; an instance that names none is healthy too.
pub proof fn law_health_is_reported(
    executor: Executor,
    reg: Registry,
    entry: Arc<ToolEntry>,
    args: Args,
    resp: ResponseView,
    e: ErrorView,
    key: Seq<char>,
    now: nat,
)
    ensures
        ({
            let task = TaskView { entry, args, stage: StageView::HealthVersion };
            let known = executor.resumed(reg, task, Ok(resp), now);
            let unknown = executor.resumed(reg, task, Err(e), now);
            let fact = key == "version"@ || key == "revision"@ || key == "enterprise"@;
            let base = key == "status"@ || key == "authenticated"@ || key == "gitlab_url"@;
            let named = resp.body matches JsonView::Object(m) && m.dom().contains(key);
            &&& reports(known, true, executor.url())
            &&& reports(unknown, true, executor.url())
            &&& unknown->Done_0->Ok_0->Object_0.dom().contains(key) <==> base
            &&& known->Done_0->Ok_0->Object_0.dom().contains(key) <==> base || (fact && named)
            &&& fact && named ==> known->Done_0->Ok_0->Object_0[key] == resp.body->Object_0[key]
        }),
{
    lemma_health_keys();
}

// --------------------------------------------------------------- my issues

/// The pairs that an argument adds to a query string.
pub open spec fn asked(args: Args, key: Seq<char>) -> Seq<(Seq<char>, Seq<char>)> {
    if args.dom().contains(key) && !(args[key] is Null) {
        query_pairs(key, args[key])
    } else {
        seq![]
    }
}

/// Labels are repeated one by one, where there are several.
pub open spec fn asked_labels(args: Args) -> Seq<(Seq<char>, Seq<char>)> {
    if args.dom().contains("labels"@) && args["labels"@] is Array {
        scalars(args["labels"@]->Array_0).map_values(|s: Seq<char>| ("labels[]"@, s))
    } else {
        asked(args, "labels"@)
    }
}

/// Whose issues are asked for: by name, else by id.
pub open spec fn asked_of(me: JsonView) -> Seq<(Seq<char>, Seq<char>)> {
    if me matches JsonView::Object(m) && m.dom().contains("username"@) && m["username"@] is Str {
        seq![("assignee_username[]"@, me->Object_0["username"@]->Str_0)]
    } else if me matches JsonView::Object(m) && m.dom().contains("id"@) && m["id"@].scalar() is Some {
        seq![("assignee_id"@, me->Object_0["id"@].scalar()->0)]
    } else {
        seq![]
    }
}

/// The state that is asked for: `opened` unless told.
pub open spec fn asked_state(args: Args) -> Seq<char> {
    if args.dom().contains("state"@) && args["state"@] is Str {
        args["state"@]->Str_0
    } else {
        "opened"@
    }
}

/// One's own issues are those assigned to whoever the token belongs to, who is asked for
/// first: in one project where one is named, else everywhere, open ones unless told, and
/// narrowed by what else is asked for.
pub proof fn law_own_issues(
    executor: Executor,
    reg: Registry,
    entry: Arc<ToolEntry>,
    args: Args,
    resp: ResponseView,
    e: ErrorView,
    now: nat,
)
    requires
        entry.meta.name@ == "my_issues"@,
    ensures
        ({
            let task = TaskView { entry, args, stage: StageView::MyIssues };
            let next = executor.resumed(reg, task, Ok(resp), now);
            let named = given(args, "project_id"@) && said(args, "project_id"@).len() > 0;
            &&& composite_begun(entry, args, now) == StepView::Send(
                reading("/user"@, seq![]),
                task,
            )
            &&& executor.resumed(reg, task, Err(e), now) == StepView::Done(Err(e.text()))
            &&& next is Send
            &&& next->Send_1 == last_call(entry, args)
            &&& next->Send_0 is Rest
            &&& next->Send_0->method == "GET"@
            &&& next->Send_0->body is None
            &&& named ==> next->Send_0->path == "/projects/"@ + segment(said(args, "project_id"@))
                + "/issues"@
            &&& !named ==> next->Send_0->path == "/issues"@
            &&& next->Send_0->query == asked_of(resp.body) + seq![("state"@, asked_state(args))]
                + asked_labels(args) + asked(args, "milestone"@) + asked(args, "search"@) + asked(
                args,
                "created_after"@,
            ) + asked(args, "created_before"@) + asked(args, "updated_after"@) + asked(
                args,
                "updated_before"@,
            ) + asked(args, "per_page"@) + asked(args, "page"@)
        }),
{
    lemma_tool_names();
}

} // verus!
