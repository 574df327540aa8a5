//! Creating branches and files.

use crate::args::{Args, arg_scalar, arg_value, required, required_str, scalar_arg, value_arg};
use crate::encode::{enc, segment};
use crate::flow::{Stage, StageView, Step, StepView, below_project, body_call, call_with, fail,
    failed, get, get_call, get_plain, one_pair, project_path, send, sent};
use crate::gitlab::{ApiError, ApiResponse, ErrorView, ResponseView, answer};
use crate::json::{Json, JsonMap, JsonView, seen};
use crate::lists::{text_at, text_field};
use crate::registry::ToolEntry;
use crate::variables::{first_of, put_some, with_field};
use std::sync::Arc;
use vstd::prelude::*;
use vstd::string::*;

verus! {

// ---------------------------------------------------------------- branches

/// The ref that a branch is cut from, where the arguments name one.
pub open spec fn given_ref(args: Args) -> Option<Seq<char>> {
    match arg_scalar(args, "ref"@) {
        Some(r) => if r.len() > 0 {
            Some(r)
        } else {
            None
        },
        None => None,
    }
}

/// A branch is created from a ref.
pub open spec fn branch_sent(entry: Arc<ToolEntry>, args: Args, from: Seq<char>) -> StepView {
    match required(args, "project_id"@) {
        Err(e) => failed(e),
        Ok(project) => match required(args, "branch"@) {
            Err(e) => failed(e),
            Ok(branch) => sent(
                body_call(
                    "POST"@,
                    project_path(project, "/repository/branches"@),
                    Some(
                        JsonView::Object(
                            Map::<Seq<char>, JsonView>::empty().insert(
                                "branch"@,
                                JsonView::Str(branch),
                            ).insert("ref"@, JsonView::Str(from)),
                        ),
                    ),
                ),
                entry,
                args,
                StageView::Plain,
            ),
        },
    }
}

/// A branch is asked for; without a ref, the default branch is looked up first.
pub open spec fn branch_begun(entry: Arc<ToolEntry>, args: Args) -> StepView {
    match required(args, "project_id"@) {
        Err(e) => failed(e),
        Ok(project) => match required(args, "branch"@) {
            Err(e) => failed(e),
            Ok(branch) => match given_ref(args) {
                Some(from) => branch_sent(entry, args, from),
                None => sent(
                    get_call(project_path(project, ""@), seq![]),
                    entry,
                    args,
                    StageView::DefaultBranch,
                ),
            },
        },
    }
}

/// A branch is created from the default branch of its project.
pub open spec fn default_found(
    entry: Arc<ToolEntry>,
    args: Args,
    reply: Result<ResponseView, ErrorView>,
) -> StepView {
    match reply {
        Err(e) => failed(e.text()),
        Ok(resp) => branch_sent(
            entry,
            args,
            match text_field(resp.body, "default_branch"@) {
                Some(b) => b,
                None => "main"@,
            },
        ),
    }
}

/// A branch is created from a ref.
fn send_branch(entry: &Arc<ToolEntry>, args: JsonMap, from: &str) -> (r: Step)
    ensures
        r@ == branch_sent(*entry, args.fields(), from@),
{
    let project = match required_str(&args, "project_id") {
        Ok(p) => p,
        Err(e) => {
            return fail(e.0);
        },
    };
    let branch = match required_str(&args, "branch") {
        Ok(b) => b,
        Err(e) => {
            return fail(e.0);
        },
    };
    let mut body = JsonMap::empty();
    body.put("branch", Json::Str(branch));
    body.put("ref", Json::from_text(from));
    let path = below_project(project.as_str(), "/repository/branches");
    send(call_with("POST", path, Some(Json::Object(body))), entry, args, Stage::Plain)
}

/// A branch is cut from the project default when no ref is given.
pub fn create_branch(entry: &Arc<ToolEntry>, args: JsonMap) -> (r: Step)
    ensures
        r@ == branch_begun(*entry, args.fields()),
{
    let project = match required_str(&args, "project_id") {
        Ok(p) => p,
        Err(e) => {
            return fail(e.0);
        },
    };
    if let Err(e) = required_str(&args, "branch") {
        return fail(e.0);
    }
    if let Some(from) = scalar_arg(&args, "ref") {
        if !from.as_str().is_empty() {
            return send_branch(entry, args, from.as_str());
        }
    }
    send(get_plain(below_project(project.as_str(), "")), entry, args, Stage::DefaultBranch)
}

/// A branch is created from the default branch of its project.
pub fn on_default_branch(
    entry: &Arc<ToolEntry>,
    args: JsonMap,
    reply: Result<ApiResponse, ApiError>,
) -> (r: Step)
    ensures
        r@ == default_found(*entry, args.fields(), answer(reply)),
{
    match reply {
        Ok(resp) => {
            let from = match text_at(&resp.body, "default_branch") {
                Some(b) => b,
                None => "main",
            };
            send_branch(entry, args, from)
        },
        Err(e) => fail(e.text()),
    }
}

// ------------------------------------------------------------------- files

/// The path of a file.
pub open spec fn file_path(project: Seq<char>, file: Seq<char>) -> Seq<char> {
    project_path(project, "/repository/files/"@ + segment(file))
}

/// A file is looked for on its branch.
pub open spec fn file_begun(entry: Arc<ToolEntry>, args: Args) -> StepView {
    match required(args, "project_id"@) {
        Err(e) => failed(e),
        Ok(project) => match required(args, "file_path"@) {
            Err(e) => failed(e),
            Ok(file) => match required(args, "branch"@) {
                Err(e) => failed(e),
                Ok(branch) => sent(
                    get_call(file_path(project, file), seq![("ref"@, branch)]),
                    entry,
                    args,
                    StageView::FileProbe,
                ),
            },
        },
    }
}

/// A commit id: the one that was given, else that of the existing file.
pub open spec fn commit_value(args: Args, existing: Option<JsonView>, key: Seq<char>) -> Option<
    JsonView,
> {
    first_of(
        arg_value(args, key),
        match existing {
            Some(file) => file.field(key),
            None => None,
        },
    )
}

/// The body that writes a file.
pub open spec fn file_body(args: Args, existing: Option<JsonView>) -> Map<Seq<char>, JsonView> {
    let m = Map::<Seq<char>, JsonView>::empty();
    let m = with_field(m, "branch"@, arg_value(args, "branch"@));
    let m = with_field(m, "content"@, arg_value(args, "content"@));
    let m = with_field(m, "commit_message"@, arg_value(args, "commit_message"@));
    let m = with_field(m, "encoding"@, arg_value(args, "encoding"@));
    let m = with_field(m, "previous_path"@, arg_value(args, "previous_path"@));
    let m = with_field(m, "author_email"@, arg_value(args, "author_email"@));
    let m = with_field(m, "author_name"@, arg_value(args, "author_name"@));
    let m = with_field(m, "start_branch"@, arg_value(args, "start_branch"@));
    let m = with_field(m, "commit_id"@, commit_value(args, existing, "commit_id"@));
    with_field(m, "last_commit_id"@, commit_value(args, existing, "last_commit_id"@))
}

/// A file is written: over the existing one, or as a new one.
pub open spec fn file_sent(entry: Arc<ToolEntry>, args: Args, existing: Option<JsonView>) -> StepView {
    match required(args, "project_id"@) {
        Err(e) => failed(e),
        Ok(project) => match required(args, "file_path"@) {
            Err(e) => failed(e),
            Ok(file) => sent(
                body_call(
                    if existing is Some {
                        "PUT"@
                    } else {
                        "POST"@
                    },
                    file_path(project, file),
                    Some(JsonView::Object(file_body(args, existing))),
                ),
                entry,
                args,
                StageView::Plain,
            ),
        },
    }
}

/// Whether the file already exists decides between create and update.
pub open spec fn file_probed(
    entry: Arc<ToolEntry>,
    args: Args,
    reply: Result<ResponseView, ErrorView>,
) -> StepView {
    match reply {
        Ok(resp) => file_sent(entry, args, Some(resp.body)),
        Err(e) => if e.status == 404 {
            file_sent(entry, args, None)
        } else {
            failed(e.text())
        },
    }
}

/// The path of a file.
fn path_of_file(project: &str, file: &str) -> (r: String)
    ensures
        r@ == file_path(project@, file@),
{
    let rest = "/repository/files/".to_string().concat(enc(file).as_str());
    below_project(project, rest.as_str())
}

/// A file is looked for on its branch.
pub fn create_or_update_file(entry: &Arc<ToolEntry>, args: JsonMap) -> (r: Step)
    ensures
        r@ == file_begun(*entry, args.fields()),
{
    let project = match required_str(&args, "project_id") {
        Ok(p) => p,
        Err(e) => {
            return fail(e.0);
        },
    };
    let file = match required_str(&args, "file_path") {
        Ok(f) => f,
        Err(e) => {
            return fail(e.0);
        },
    };
    let branch = match required_str(&args, "branch") {
        Ok(b) => b,
        Err(e) => {
            return fail(e.0);
        },
    };
    let path = path_of_file(project.as_str(), file.as_str());
    send(get(path, one_pair("ref", branch.as_str())), entry, args, Stage::FileProbe)
}

/// Adds a commit id to a body: the one that was given, else that of the existing
/// file, so GitLab can detect a concurrent write.
fn put_commit(body: &mut JsonMap, args: &JsonMap, existing: &Option<Json>, key: &str)
    ensures
        final(body).fields() == with_field(
            old(body).fields(),
            key@,
            commit_value(args.fields(), seen(*existing), key@),
        ),
{
    match value_arg(args, key) {
        Some(v) => {
            body.put(key, v.copy());
        },
        None => {
            if let Some(file) = existing {
                put_some(body, key, file.get(key));
            }
        },
    }
}

/// The body that writes a file.
fn body_of_file(args: &JsonMap, existing: &Option<Json>) -> (r: JsonMap)
    ensures
        r.fields() == file_body(args.fields(), seen(*existing)),
{
    let mut body = JsonMap::empty();
    put_some(&mut body, "branch", value_arg(args, "branch"));
    put_some(&mut body, "content", value_arg(args, "content"));
    put_some(&mut body, "commit_message", value_arg(args, "commit_message"));
    put_some(&mut body, "encoding", value_arg(args, "encoding"));
    put_some(&mut body, "previous_path", value_arg(args, "previous_path"));
    put_some(&mut body, "author_email", value_arg(args, "author_email"));
    put_some(&mut body, "author_name", value_arg(args, "author_name"));
    put_some(&mut body, "start_branch", value_arg(args, "start_branch"));
    put_commit(&mut body, args, existing, "commit_id");
    put_commit(&mut body, args, existing, "last_commit_id");
    body
}

/// Whether the file already exists decides between create and update.
pub fn on_file_probe(
    entry: &Arc<ToolEntry>,
    args: JsonMap,
    reply: Result<ApiResponse, ApiError>,
) -> (r: Step)
    ensures
        r@ == file_probed(*entry, args.fields(), answer(reply)),
{
    let (method, existing) = match reply {
        Ok(resp) => ("PUT", Some(resp.body)),
        Err(e) => if e.status == 404 {
            ("POST", None)
        } else {
            return fail(e.text());
        },
    };
    let project = match required_str(&args, "project_id") {
        Ok(p) => p,
        Err(e) => {
            return fail(e.0);
        },
    };
    let file = match required_str(&args, "file_path") {
        Ok(f) => f,
        Err(e) => {
            return fail(e.0);
        },
    };
    let path = path_of_file(project.as_str(), file.as_str());
    let body = Json::Object(body_of_file(&args, &existing));
    send(call_with(method, path, Some(body)), entry, args, Stage::Plain)
}

// -------------------------------------------------------------------- laws

/// A write carries the commit ids that the caller names, and those of the existing
/// file where the caller names none.
pub proof fn law_commit_ids_are_carried(args: Args, existing: Option<JsonView>, key: Seq<char>)
    requires
        key == "commit_id"@ || key == "last_commit_id"@,
    ensures
        file_body(args, existing).dom().contains(key) == commit_value(args, existing, key) is Some,
        commit_value(args, existing, key) is Some ==> file_body(args, existing)[key]
            == commit_value(args, existing, key)->0,
        arg_value(args, key) is Some ==> commit_value(args, existing, key) == arg_value(args, key),
{
    reveal_strlit("branch");
    reveal_strlit("content");
    reveal_strlit("commit_message");
    reveal_strlit("encoding");
    reveal_strlit("previous_path");
    reveal_strlit("author_email");
    reveal_strlit("author_name");
    reveal_strlit("start_branch");
    reveal_strlit("commit_id");
    reveal_strlit("last_commit_id");
    assert("commit_message"@[0] != "last_commit_id"@[0]);
    assert("commit_id"@.len() == 9);
    assert("last_commit_id"@.len() == 14);
}

} // verus!
