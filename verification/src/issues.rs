//! Listing one's own issues, and editing an issue description without resending the
//! whole body.

use crate::args::{Args, arg_scalar, arg_text, arg_true, arg_value, is_true, required, required_str,
    scalar_arg, text_arg, value_arg};
use crate::encode::{enc, segment};
use crate::error::{ToolError, err, outcome};
use crate::flow::{Stage, StageView, Step, StepView, below_project, body_call, call_with, fail,
    failed, get, get_call, get_plain, project_path, send, sent, succeed, succeeded};
use crate::gitlab::{ApiError, ApiResponse, ErrorView, ResponseView, answer, pairs_seen};
use crate::json::{Json, JsonMap, JsonView};
use crate::lists::{scalar_at, scalar_field, scalars, scalars_of, text_at, text_field};
use crate::patch::{apply_search_replace, apply_unified_diff, search_replace, unified_diff};
use crate::registry::ToolEntry;
use crate::route::{push_query, query_pairs};
use crate::text::{same, strs};
use crate::unicode::{quote, quoted};
use std::sync::Arc;
use vstd::prelude::*;
use vstd::string::*;

verus! {

/// Pairs of a query string.
pub type Pairs = Seq<(Seq<char>, Seq<char>)>;

// --------------------------------------------------------------- my issues

/// The pair that asks for the issues of a user: by name, else by id.
pub open spec fn assignee(me: JsonView) -> Pairs {
    match text_field(me, "username"@) {
        Some(u) => seq![("assignee_username[]"@, u)],
        None => match scalar_field(me, "id"@) {
            Some(id) => seq![("assignee_id"@, id)],
            None => seq![],
        },
    }
}

/// The state that issues are in, open ones unless another is asked for.
pub open spec fn wanted_state(args: Args) -> Seq<char> {
    match arg_text(args, "state"@) {
        Some(s) => s,
        None => "opened"@,
    }
}

/// The pairs of an argument that is not `null`.
pub open spec fn argument_pairs(args: Args, key: Seq<char>) -> Pairs {
    match arg_value(args, key) {
        Some(v) => query_pairs(key, v),
        None => seq![],
    }
}

/// The pairs of the labels: a list is repeated label by label.
pub open spec fn label_pairs(args: Args) -> Pairs {
    match arg_value(args, "labels"@) {
        Some(JsonView::Array(items)) => scalars(items).map_values(
            |s: Seq<char>| ("labels[]"@, s),
        ),
        Some(v) => query_pairs("labels"@, v),
        None => seq![],
    }
}

/// The query string for the issues of a user.
pub open spec fn issue_query(me: JsonView, args: Args) -> Pairs {
    assignee(me) + seq![("state"@, wanted_state(args))] + label_pairs(args) + argument_pairs(
        args,
        "milestone"@,
    ) + argument_pairs(args, "search"@) + argument_pairs(args, "created_after"@) + argument_pairs(
        args,
        "created_before"@,
    ) + argument_pairs(args, "updated_after"@) + argument_pairs(args, "updated_before"@)
        + argument_pairs(args, "per_page"@) + argument_pairs(args, "page"@)
}

/// Where issues are listed: in a project where one is named, else everywhere.
pub open spec fn issues_path(args: Args) -> Seq<char> {
    match arg_scalar(args, "project_id"@) {
        Some(p) => if p.len() > 0 {
            project_path(p, "/issues"@)
        } else {
            "/issues"@
        },
        None => "/issues"@,
    }
}

/// Whose token it is has to be known before issues can be listed.
pub open spec fn my_issues_begun(entry: Arc<ToolEntry>, args: Args) -> StepView {
    sent(get_call("/user"@, seq![]), entry, args, StageView::MyIssues)
}

/// The issues of the user are listed.
pub open spec fn me_found(
    entry: Arc<ToolEntry>,
    args: Args,
    reply: Result<ResponseView, ErrorView>,
) -> StepView {
    match reply {
        Err(e) => failed(e.text()),
        Ok(resp) => sent(
            get_call(issues_path(args), issue_query(resp.body, args)),
            entry,
            args,
            StageView::Plain,
        ),
    }
}

/// Issues assigned to whoever the token belongs to.
pub fn my_issues(entry: &Arc<ToolEntry>, args: JsonMap) -> (r: Step)
    ensures
        r@ == my_issues_begun(*entry, args.fields()),
{
    send(get_plain("/user".to_string()), entry, args, Stage::MyIssues)
}

/// Adds one pair to a query string.
fn push_pair(query: &mut Vec<(String, String)>, key: &str, value: &str)
    ensures
        pairs_seen(final(query)@) == pairs_seen(old(query)@) + seq![(key@, value@)],
{
    let ghost held = query@;
    let pair = (key.to_string(), value.to_string());
    query.push(pair);
    assert(pairs_seen(query@) == pairs_seen(held) + seq![(pair.0@, pair.1@)]);
}

/// Adds the pairs of an argument that is not `null`.
fn push_argument(query: &mut Vec<(String, String)>, args: &JsonMap, key: &str)
    ensures
        pairs_seen(final(query)@) == pairs_seen(old(query)@) + argument_pairs(args.fields(), key@),
{
    let ghost held = query@;
    match value_arg(args, key) {
        Some(v) => {
            push_query(query, key, v);
        },
        None => {
            assert(pairs_seen(held) + argument_pairs(args.fields(), key@) == pairs_seen(held));
        },
    }
}

/// Adds the pairs of the labels.
fn push_labels(query: &mut Vec<(String, String)>, args: &JsonMap)
    ensures
        pairs_seen(final(query)@) == pairs_seen(old(query)@) + label_pairs(args.fields()),
{
    let ghost held = query@;
    let labels = match value_arg(args, "labels") {
        Some(v) => v,
        None => {
            assert(pairs_seen(held) + label_pairs(args.fields()) == pairs_seen(held));
            return;
        },
    };
    let items = match labels.as_array() {
        Some(items) => items,
        None => {
            push_query(query, "labels", labels);
            return;
        },
    };
    let list = scalars_of(items);
    let ghost wanted = label_pairs(args.fields());
    assert(strs(list@).len() == list@.len());
    for i in 0..list.len()
        invariant
            wanted == strs(list@).map_values(|s: Seq<char>| ("labels[]"@, s)),
            pairs_seen(query@) == pairs_seen(held) + wanted.take(i as int),
    {
        assert(strs(list@)[i as int] == list@[i as int]@);
        assert(wanted.take(i + 1) == wanted.take(i as int) + seq![("labels[]"@, list@[i as int]@)]);
        push_pair(query, "labels[]", list[i].as_str());
    }
    assert(wanted.take(list@.len() as int) == wanted);
}

/// The query string for the issues of a user.
fn query_for_issues(me: &Json, args: &JsonMap) -> (r: Vec<(String, String)>)
    ensures
        pairs_seen(r@) == issue_query(me@, args.fields()),
{
    let mut query: Vec<(String, String)> = Vec::new();
    assert(pairs_seen(query@) == Seq::<(Seq<char>, Seq<char>)>::empty());
    match text_at(me, "username") {
        Some(u) => {
            push_pair(&mut query, "assignee_username[]", u);
        },
        None => {
            if let Some(id) = scalar_at(me, "id") {
                push_pair(&mut query, "assignee_id", id.as_str());
            }
        },
    }
    assert(pairs_seen(query@) == assignee(me@));
    let state = match text_arg(args, "state") {
        Some(s) => s,
        None => "opened",
    };
    push_pair(&mut query, "state", state);
    push_labels(&mut query, args);
    push_argument(&mut query, args, "milestone");
    push_argument(&mut query, args, "search");
    push_argument(&mut query, args, "created_after");
    push_argument(&mut query, args, "created_before");
    push_argument(&mut query, args, "updated_after");
    push_argument(&mut query, args, "updated_before");
    push_argument(&mut query, args, "per_page");
    push_argument(&mut query, args, "page");
    query
}

/// The issues of the user are listed.
pub fn on_me(entry: &Arc<ToolEntry>, args: JsonMap, reply: Result<ApiResponse, ApiError>) -> (r: Step)
    ensures
        r@ == me_found(*entry, args.fields(), answer(reply)),
{
    let me = match reply {
        Ok(resp) => resp.body,
        Err(e) => {
            return fail(e.text());
        },
    };
    let path = match scalar_arg(&args, "project_id") {
        Some(p) => if p.as_str().is_empty() {
            "/issues".to_string()
        } else {
            below_project(p.as_str(), "/issues")
        },
        None => "/issues".to_string(),
    };
    let query = query_for_issues(&me, &args);
    send(get(path, query), entry, args, Stage::Plain)
}

// ------------------------------------------------------------ descriptions

/// The path of an issue.
pub open spec fn issue_path(project: Seq<char>, iid: Seq<char>) -> Seq<char> {
    project_path(project, "/issues/"@ + segment(iid))
}

/// What an edit of a description needs.
pub struct EditRequest {
    pub path: String,
    pub patch: String,
}

/// What an edit of a description needs, as a mathematical value.
pub struct EditRequestView {
    pub path: Seq<char>,
    pub patch: Seq<char>,
}

impl View for EditRequest {
    type V = EditRequestView;

    open spec fn view(&self) -> EditRequestView {
        EditRequestView { path: self.path@, patch: self.patch@ }
    }
}

/// What an edit needs, or what is missing for it.
pub open spec fn edit_seen(r: Result<EditRequest, ToolError>) -> Result<EditRequestView, Seq<char>> {
    match r {
        Ok(x) => Ok(x@),
        Err(e) => Err(e.0@),
    }
}

/// The edit that the arguments ask for.
pub open spec fn edit_for(args: Args) -> Result<EditRequestView, Seq<char>> {
    match required(args, "project_id"@) {
        Err(e) => Err(e),
        Ok(project) => match required(args, "issue_iid"@) {
            Err(e) => Err(e),
            Ok(iid) => match arg_text(args, "patch"@) {
                None => Err("patch is required"@),
                Some(patch) => Ok(EditRequestView { path: issue_path(project, iid), patch }),
            },
        },
    }
}

/// The issue that is to be edited is read.
pub open spec fn edit_begun(entry: Arc<ToolEntry>, args: Args) -> StepView {
    match edit_for(args) {
        Err(e) => failed(e),
        Ok(edit) => sent(get_call(edit.path, seq![]), entry, args, StageView::PatchRead),
    }
}

/// The description of an issue.
pub open spec fn description(issue: JsonView) -> Seq<char> {
    match text_field(issue, "description"@) {
        Some(d) => d,
        None => ""@,
    }
}

/// The edited description: search blocks are applied unless a unified diff is asked
/// for.
pub open spec fn edited(original: Seq<char>, patch: Seq<char>, args: Args) -> Result<
    Seq<char>,
    Seq<char>,
> {
    let kind = match arg_text(args, "patch_type"@) {
        Some(k) => k,
        None => "search_replace"@,
    };
    if kind == "search_replace"@ {
        search_replace(original, patch, arg_true(args, "allow_multiple"@))
    } else if kind == "unified_diff"@ {
        unified_diff(original, patch)
    } else {
        Err("unknown patch_type "@ + quote(kind))
    }
}

/// What a dry run answers.
pub open spec fn dry_result(original: Seq<char>, updated: Seq<char>) -> JsonView {
    JsonView::Object(
        Map::<Seq<char>, JsonView>::empty().insert("dry_run"@, JsonView::Bool(true)).insert(
            "changed"@,
            JsonView::Bool(updated != original),
        ).insert("description"@, JsonView::Str(updated)),
    )
}

/// The description of the issue that was read is edited, and saved unless this is a
/// dry run.
pub open spec fn issue_read(
    entry: Arc<ToolEntry>,
    args: Args,
    reply: Result<ResponseView, ErrorView>,
) -> StepView {
    match edit_for(args) {
        Err(e) => failed(e),
        Ok(edit) => match reply {
            Err(e) => failed(e.text()),
            Ok(resp) => {
                let original = description(resp.body);
                match edited(original, edit.patch, args) {
                    Err(e) => failed(e),
                    Ok(updated) => if arg_true(args, "dry_run"@) {
                        succeeded(dry_result(original, updated))
                    } else {
                        sent(
                            body_call(
                                "PUT"@,
                                edit.path,
                                Some(
                                    JsonView::Object(
                                        Map::<Seq<char>, JsonView>::empty().insert(
                                            "description"@,
                                            JsonView::Str(updated),
                                        ),
                                    ),
                                ),
                            ),
                            entry,
                            args,
                            StageView::PatchSave { changed: updated != original },
                        )
                    },
                }
            },
        },
    }
}

/// What a saved edit answers.
pub open spec fn saved_result(issue: JsonView, changed: bool) -> Map<Seq<char>, JsonView> {
    Map::<Seq<char>, JsonView>::empty().insert("issue"@, issue).insert(
        "changed"@,
        JsonView::Bool(changed),
    )
}

/// The edit is saved, and a note is left where one is wanted.
pub open spec fn issue_saved(
    entry: Arc<ToolEntry>,
    args: Args,
    changed: bool,
    reply: Result<ResponseView, ErrorView>,
) -> StepView {
    match edit_for(args) {
        Err(e) => failed(e),
        Ok(edit) => match reply {
            Err(e) => failed(e.text()),
            Ok(resp) => {
                let out = saved_result(resp.body, changed);
                if arg_true(args, "create_note"@) {
                    sent(
                        body_call(
                            "POST"@,
                            edit.path + "/notes"@,
                            Some(
                                JsonView::Object(
                                    Map::<Seq<char>, JsonView>::empty().insert(
                                        "body"@,
                                        JsonView::Str(
                                            "Updated issue description using patch-based tool."@,
                                        ),
                                    ),
                                ),
                            ),
                        ),
                        entry,
                        args,
                        StageView::PatchNote { out },
                    )
                } else {
                    succeeded(JsonView::Object(out))
                }
            },
        },
    }
}

/// What became of a note.
pub open spec fn note_result(reply: Result<ResponseView, ErrorView>) -> JsonView {
    JsonView::Object(
        match reply {
            Ok(resp) => Map::<Seq<char>, JsonView>::empty().insert(
                "status"@,
                JsonView::Str("created"@),
            ).insert("note"@, resp.body),
            Err(e) => Map::<Seq<char>, JsonView>::empty().insert(
                "status"@,
                JsonView::Str("failed"@),
            ).insert("error"@, JsonView::Str(e.text())),
        },
    )
}

/// A note that failed does not fail the edit that already landed.
pub open spec fn note_left(out: Args, reply: Result<ResponseView, ErrorView>) -> StepView {
    succeeded(JsonView::Object(out.insert("note"@, note_result(reply))))
}

/// The edit that the arguments ask for.
fn read_edit(args: &JsonMap) -> (r: Result<EditRequest, ToolError>)
    ensures
        edit_seen(r) == edit_for(args.fields()),
{
    let project = match required_str(args, "project_id") {
        Ok(p) => p,
        Err(e) => {
            return Err(e);
        },
    };
    let iid = match required_str(args, "issue_iid") {
        Ok(i) => i,
        Err(e) => {
            return Err(e);
        },
    };
    let patch = match text_arg(args, "patch") {
        Some(p) => p.to_string(),
        None => {
            return err("patch is required");
        },
    };
    let rest = "/issues/".to_string().concat(enc(iid.as_str()).as_str());
    Ok(EditRequest { path: below_project(project.as_str(), rest.as_str()), patch })
}

/// The issue that is to be edited is read.
pub fn update_issue_description_patch(entry: &Arc<ToolEntry>, args: JsonMap) -> (r: Step)
    ensures
        r@ == edit_begun(*entry, args.fields()),
{
    match read_edit(&args) {
        Ok(edit) => send(get_plain(edit.path), entry, args, Stage::PatchRead),
        Err(e) => fail(e.0),
    }
}

/// The edited description.
fn edit_description(original: &str, patch: &str, args: &JsonMap) -> (r: Result<String, ToolError>)
    ensures
        outcome(r) == edited(original@, patch@, args.fields()),
{
    let kind = match text_arg(args, "patch_type") {
        Some(k) => k,
        None => "search_replace",
    };
    if same(kind, "search_replace") {
        apply_search_replace(original, patch, is_true(args, "allow_multiple"))
    } else if same(kind, "unified_diff") {
        apply_unified_diff(original, patch)
    } else {
        Err(ToolError("unknown patch_type ".to_string().concat(quoted(kind).as_str())))
    }
}

/// The description of the issue that was read is edited, and saved unless this is a
/// dry run.
pub fn on_issue_read(
    entry: &Arc<ToolEntry>,
    args: JsonMap,
    reply: Result<ApiResponse, ApiError>,
) -> (r: Step)
    ensures
        r@ == issue_read(*entry, args.fields(), answer(reply)),
{
    let edit = match read_edit(&args) {
        Ok(edit) => edit,
        Err(e) => {
            return fail(e.0);
        },
    };
    let issue = match reply {
        Ok(resp) => resp.body,
        Err(e) => {
            return fail(e.text());
        },
    };
    let original = match text_at(&issue, "description") {
        Some(d) => d,
        None => "",
    };
    let updated = match edit_description(original, edit.patch.as_str(), &args) {
        Ok(u) => u,
        Err(e) => {
            return fail(e.0);
        },
    };
    let changed = !same(updated.as_str(), original);
    let mut body = JsonMap::empty();
    if is_true(&args, "dry_run") {
        body.put("dry_run", Json::Bool(true));
        body.put("changed", Json::Bool(changed));
        body.put("description", Json::Str(updated));
        return succeed(Json::Object(body));
    }
    body.put("description", Json::Str(updated));
    send(
        call_with("PUT", edit.path, Some(Json::Object(body))),
        entry,
        args,
        Stage::PatchSave { changed },
    )
}

/// The edit is saved, and a note is left where one is wanted.
pub fn on_issue_saved(
    entry: &Arc<ToolEntry>,
    args: JsonMap,
    changed: bool,
    reply: Result<ApiResponse, ApiError>,
) -> (r: Step)
    ensures
        r@ == issue_saved(*entry, args.fields(), changed, answer(reply)),
{
    let edit = match read_edit(&args) {
        Ok(edit) => edit,
        Err(e) => {
            return fail(e.0);
        },
    };
    let saved = match reply {
        Ok(resp) => resp.body,
        Err(e) => {
            return fail(e.text());
        },
    };
    let mut out = JsonMap::empty();
    out.put("issue", saved);
    out.put("changed", Json::Bool(changed));
    if !is_true(&args, "create_note") {
        return succeed(Json::Object(out));
    }
    let mut body = JsonMap::empty();
    body.put("body", Json::from_text("Updated issue description using patch-based tool."));
    let path = edit.path.concat("/notes");
    send(
        call_with("POST", path, Some(Json::Object(body))),
        entry,
        args,
        Stage::PatchNote { out },
    )
}

/// A note that failed does not fail the edit that already landed.
pub fn on_note(out: JsonMap, reply: Result<ApiResponse, ApiError>) -> (r: Step)
    ensures
        r@ == note_left(out.fields(), answer(reply)),
{
    let mut note = JsonMap::empty();
    match reply {
        Ok(resp) => {
            note.put("status", Json::from_text("created"));
            note.put("note", resp.body);
        },
        Err(e) => {
            note.put("status", Json::from_text("failed"));
            note.put("error", Json::Str(e.text()));
        },
    }
    let mut out = out;
    out.put("note", Json::Object(note));
    succeed(Json::Object(out))
}

// -------------------------------------------------------------------- laws

/// A dry run changes nothing: it reads the issue, and nothing is sent after that.
pub proof fn law_dry_run_only_reads(
    entry: Arc<ToolEntry>,
    args: Args,
    reply: Result<ResponseView, ErrorView>,
)
    requires
        arg_true(args, "dry_run"@),
    ensures
        edit_for(args) is Ok ==> edit_begun(entry, args) == sent(
            get_call(edit_for(args)->Ok_0.path, seq![]),
            entry,
            args,
            StageView::PatchRead,
        ),
        edit_for(args) is Err ==> edit_begun(entry, args) is Done,
        issue_read(entry, args, reply) is Done,
{
}

/// An edit that does not apply is reported, and nothing is sent.
pub proof fn law_failed_edit_sends_nothing(
    entry: Arc<ToolEntry>,
    args: Args,
    resp: ResponseView,
)
    requires
        edit_for(args) is Ok,
        edited(description(resp.body), edit_for(args)->Ok_0.patch, args) is Err,
    ensures
        issue_read(entry, args, Ok(resp)) == failed(
            edited(description(resp.body), edit_for(args)->Ok_0.patch, args)->Err_0,
        ),
{
}

/// Once an edit is saved, the call succeeds, whatever becomes of the note.
pub proof fn law_saved_edit_succeeds(out: Args, reply: Result<ResponseView, ErrorView>)
    ensures
        note_left(out, reply) is Done,
        note_left(out, reply)->Done_0 is Ok,
{
}

} // verus!
