//! Laws of the tools that write: branches, files, and the descriptions of issues.

use crate::args::Args;
use crate::encode::segment;
use crate::exec::{Executor, composite_begun};
use crate::flow::{StageView, StepView, TaskView};
use crate::gitlab::{ErrorView, ResponseView};
use crate::json::JsonView;
use crate::laws::waits::{given, lemma_tool_names, reading, said};
use crate::patch::{search_replace, unified_diff};
use crate::registry::{Registry, ToolEntry};
use crate::unicode::quote;
use std::sync::Arc;
use vstd::prelude::*;
use vstd::string::*;

verus! {

/// A tool that waits for the reply to its last call.
pub open spec fn last_call(entry: Arc<ToolEntry>, args: Args) -> TaskView {
    TaskView { entry, args, stage: StageView::Plain }
}

/// The reply to the last call is the result.
pub proof fn law_last_reply(
    executor: Executor,
    reg: Registry,
    entry: Arc<ToolEntry>,
    args: Args,
    resp: ResponseView,
    e: ErrorView,
    now: nat,
)
    ensures
        executor.resumed(reg, last_call(entry, args), Ok(resp), now) == StepView::Done(
            Ok(resp.body),
        ),
        executor.resumed(reg, last_call(entry, args), Err(e), now) == StepView::Done(Err(e.text())),
{
}

// ---------------------------------------------------------------- branches

/// Whether a step creates a branch from a ref.
pub open spec fn creates_branch(
    step: StepView,
    entry: Arc<ToolEntry>,
    args: Args,
    from: Seq<char>,
) -> bool {
    &&& step is Send
    &&& step->Send_1 == last_call(entry, args)
    &&& step->Send_0 is Rest
    &&& step->Send_0->method == "POST"@
    &&& step->Send_0->path == "/projects/"@ + segment(said(args, "project_id"@))
        + "/repository/branches"@
    &&& step->Send_0->query.len() == 0
    &&& step->Send_0->body is Some
    &&& step->Send_0->body->0 is Object
    &&& step->Send_0->body->0->Object_0.dom() == set!["branch"@, "ref"@]
    &&& step->Send_0->body->0->Object_0["branch"@] == JsonView::Str(said(args, "branch"@))
    &&& step->Send_0->body->0->Object_0["ref"@] == JsonView::Str(from)
}

/// A branch is cut from the ref that is given. Where none is, or an empty one, it is cut
/// from the default branch of the project, which is asked for first, and from `main`
/// where the project names none.
pub proof fn law_branches_are_cut(
    executor: Executor,
    reg: Registry,
    entry: Arc<ToolEntry>,
    args: Args,
    resp: ResponseView,
    e: ErrorView,
    now: nat,
)
    requires
        entry.meta.name@ == "create_branch"@,
    ensures
        !given(args, "project_id"@) ==> composite_begun(entry, args, now) == StepView::Done(
            Err("project_id"@ + " is required"@),
        ),
        given(args, "project_id"@) && !given(args, "branch"@) ==> composite_begun(entry, args, now)
            == StepView::Done(Err("branch"@ + " is required"@)),
        given(args, "project_id"@) && given(args, "branch"@) ==> ({
            let first = composite_begun(entry, args, now);
            let task = TaskView { entry, args, stage: StageView::DefaultBranch };
            let next = executor.resumed(reg, task, Ok(resp), now);
            let named = given(args, "ref"@) && said(args, "ref"@).len() > 0;
            let default = resp.body matches JsonView::Object(m) && m.dom().contains(
                "default_branch"@,
            ) && m["default_branch"@] is Str;
            &&& named ==> creates_branch(first, entry, args, said(args, "ref"@))
            &&& !named ==> first == StepView::Send(
                reading("/projects/"@ + segment(said(args, "project_id"@)), seq![]),
                task,
            )
            &&& default ==> creates_branch(
                next,
                entry,
                args,
                resp.body->Object_0["default_branch"@]->Str_0,
            )
            &&& !default ==> creates_branch(next, entry, args, "main"@)
            &&& executor.resumed(reg, task, Err(e), now) == StepView::Done(Err(e.text()))
        }),
{
    lemma_tool_names();
    reveal_strlit("");
    reveal_strlit("branch");
    reveal_strlit("ref");
    assert("branch"@.len() == 6 && "ref"@.len() == 3);
    let p = "/projects/"@ + segment(said(args, "project_id"@));
    assert(p + ""@ =~= p);
    let first = composite_begun(entry, args, now);
    let task = TaskView { entry, args, stage: StageView::DefaultBranch };
    let next = executor.resumed(reg, task, Ok(resp), now);
    if given(args, "project_id"@) && given(args, "branch"@) {
        assert(next->Send_0->body->0->Object_0.dom() =~= set!["branch"@, "ref"@]);
        if given(args, "ref"@) && said(args, "ref"@).len() > 0 {
            assert(first->Send_0->body->0->Object_0.dom() =~= set!["branch"@, "ref"@]);
        }
    }
}

// ------------------------------------------------------------------- files

/// What is passed on of the arguments of a file.
pub open spec fn passed_on(key: Seq<char>) -> bool {
    ||| key == "branch"@
    ||| key == "content"@
    ||| key == "commit_message"@
    ||| key == "encoding"@
    ||| key == "previous_path"@
    ||| key == "author_email"@
    ||| key == "author_name"@
    ||| key == "start_branch"@
}

/// The commit ids of a file.
pub open spec fn commit_key(key: Seq<char>) -> bool {
    key == "commit_id"@ || key == "last_commit_id"@
}

/// Whether a step writes a file, with a body whose field of some name is as it should
/// be: what the arguments hold besides `null`, and for a commit id, where they hold
/// none, what the existing file says.
pub open spec fn writes_file(
    step: StepView,
    entry: Arc<ToolEntry>,
    args: Args,
    method: Seq<char>,
    existing: Option<JsonView>,
    key: Seq<char>,
) -> bool {
    let own = args.dom().contains(key) && !(args[key] is Null);
    let kept = existing matches Some(JsonView::Object(file)) && file.dom().contains(key);
    let body = step->Send_0->body->0->Object_0;
    &&& step is Send
    &&& step->Send_1 == last_call(entry, args)
    &&& step->Send_0 is Rest
    &&& step->Send_0->method == method
    &&& step->Send_0->path == "/projects/"@ + segment(said(args, "project_id"@))
        + "/repository/files/"@ + segment(said(args, "file_path"@))
    &&& step->Send_0->query.len() == 0
    &&& step->Send_0->body is Some
    &&& step->Send_0->body->0 is Object
    &&& passed_on(key) ==> (body.dom().contains(key) <==> own)
    &&& commit_key(key) ==> (body.dom().contains(key) <==> own || kept)
    &&& !passed_on(key) && !commit_key(key) ==> !body.dom().contains(key)
    &&& (passed_on(key) || commit_key(key)) && own ==> body[key] == args[key]
    &&& commit_key(key) && !own && kept ==> body[key] == existing->0->Object_0[key]
}

/// A file is looked for on its branch. Where it exists it is written over, with the
/// commit ids that guard against a concurrent write; where it does not it is created;
/// any other error ends the call.
pub proof fn law_files_are_written(
    executor: Executor,
    reg: Registry,
    entry: Arc<ToolEntry>,
    args: Args,
    resp: ResponseView,
    e: ErrorView,
    key: Seq<char>,
    now: nat,
)
    requires
        entry.meta.name@ == "create_or_update_file"@,
        given(args, "project_id"@),
        given(args, "file_path"@),
        given(args, "branch"@),
    ensures
        ({
            let task = TaskView { entry, args, stage: StageView::FileProbe };
            &&& composite_begun(entry, args, now) == StepView::Send(
                reading(
                    "/projects/"@ + segment(said(args, "project_id"@)) + "/repository/files/"@
                        + segment(said(args, "file_path"@)),
                    seq![("ref"@, said(args, "branch"@))],
                ),
                task,
            )
            &&& writes_file(
                executor.resumed(reg, task, Ok(resp), now),
                entry,
                args,
                "PUT"@,
                Some(resp.body),
                key,
            )
            &&& e.status == 404 ==> writes_file(
                executor.resumed(reg, task, Err(e), now),
                entry,
                args,
                "POST"@,
                None,
                key,
            )
            &&& e.status != 404 ==> executor.resumed(reg, task, Err(e), now) == StepView::Done(
                Err(e.text()),
            )
        }),
{
    lemma_tool_names();
    lemma_file_body(args, Some(resp.body), key);
    lemma_file_body(args, None, key);
    let p = "/projects/"@ + segment(said(args, "project_id"@));
    let f = segment(said(args, "file_path"@));
    assert(p + ("/repository/files/"@ + f) =~= p + "/repository/files/"@ + f);
}

/// What the body of a file holds under some name.
#[verifier::spinoff_prover]
#[verifier::rlimit(40)]
proof fn lemma_file_body(args: Args, existing: Option<JsonView>, key: Seq<char>)
    ensures
        ({
            let own = args.dom().contains(key) && !(args[key] is Null);
            let kept = existing matches Some(JsonView::Object(file)) && file.dom().contains(key);
            let body = crate::files::file_body(args, existing);
            &&& passed_on(key) ==> (body.dom().contains(key) <==> own)
            &&& commit_key(key) ==> (body.dom().contains(key) <==> own || kept)
            &&& !passed_on(key) && !commit_key(key) ==> !body.dom().contains(key)
            &&& (passed_on(key) || commit_key(key)) && own ==> body[key] == args[key]
            &&& commit_key(key) && !own && kept ==> body[key] == existing->0->Object_0[key]
        }),
{
    lemma_file_keys();
}

proof fn lemma_file_keys()
    ensures
        "branch"@.len() == 6,
        "content"@.len() == 7,
        "commit_message"@.len() == 14,
        "commit_message"@[0] == 'c',
        "encoding"@.len() == 8,
        "previous_path"@.len() == 13,
        "author_email"@.len() == 12,
        "author_email"@[0] == 'a',
        "author_name"@.len() == 11,
        "start_branch"@.len() == 12,
        "start_branch"@[0] == 's',
        "commit_id"@.len() == 9,
        "last_commit_id"@.len() == 14,
        "last_commit_id"@[0] == 'l',
{
    reveal_strlit("branch");
    reveal_strlit("content");
    reveal_strlit("commit_message");
    reveal_strlit("encoding");
    reveal_strlit("previous_path");
    reveal_strlit("author_email");
    reveal_strlit("author_name");
    reveal_strlit("start_branch");
    reveal_strlit("commit_id");
    reveal_strlit("last_commit_id");
}

/// What a file needs is named where it is missing, and nothing is sent.
pub proof fn law_files_need(entry: Arc<ToolEntry>, args: Args, now: nat)
    requires
        entry.meta.name@ == "create_or_update_file"@,
    ensures
        !given(args, "project_id"@) ==> composite_begun(entry, args, now) == StepView::Done(
            Err("project_id"@ + " is required"@),
        ),
        given(args, "project_id"@) && !given(args, "file_path"@) ==> composite_begun(
            entry,
            args,
            now,
        ) == StepView::Done(Err("file_path"@ + " is required"@)),
        given(args, "project_id"@) && given(args, "file_path"@) && !given(args, "branch"@)
            ==> composite_begun(entry, args, now) == StepView::Done(
            Err("branch"@ + " is required"@),
        ),
{
    lemma_tool_names();
}

// ------------------------------------------------------------ descriptions

/// The path of the issue that the arguments name.
pub open spec fn issue_at(args: Args) -> Seq<char> {
    "/projects/"@ + segment(said(args, "project_id"@)) + "/issues/"@ + segment(
        said(args, "issue_iid"@),
    )
}

/// Whether the arguments say what is to be edited, and how.
pub open spec fn edits(args: Args) -> bool {
    given(args, "project_id"@) && given(args, "issue_iid"@) && args.dom().contains("patch"@)
        && args["patch"@] is Str
}

/// An argument that is `true`.
pub open spec fn wanted(args: Args, key: Seq<char>) -> bool {
    args.dom().contains(key) && args[key] == JsonView::Bool(true)
}

/// The description of an issue; nothing where it has none.
pub open spec fn described(body: JsonView) -> Seq<char> {
    match body {
        JsonView::Object(m) => if m.dom().contains("description"@) && m["description"@] is Str {
            m["description"@]->Str_0
        } else {
            seq![]
        },
        _ => seq![],
    }
}

/// What the patch makes of a description: search blocks are applied unless a unified
/// diff is asked for, and no other kind is known.
pub open spec fn patched(args: Args, original: Seq<char>) -> Result<Seq<char>, Seq<char>> {
    let patch = args["patch"@]->Str_0;
    if args.dom().contains("patch_type"@) && args["patch_type"@] is Str {
        let kind = args["patch_type"@]->Str_0;
        if kind == "search_replace"@ {
            search_replace(original, patch, wanted(args, "allow_multiple"@))
        } else if kind == "unified_diff"@ {
            unified_diff(original, patch)
        } else {
            Err("unknown patch_type "@ + quote(kind))
        }
    } else {
        search_replace(original, patch, wanted(args, "allow_multiple"@))
    }
}

/// An issue is read before its description is edited; what is missing is named.
pub proof fn law_edits_begin(entry: Arc<ToolEntry>, args: Args, now: nat)
    requires
        entry.meta.name@ == "update_issue_description_patch"@,
    ensures
        edits(args) ==> composite_begun(entry, args, now) == StepView::Send(
            reading(issue_at(args), seq![]),
            TaskView { entry, args, stage: StageView::PatchRead },
        ),
        !given(args, "project_id"@) ==> composite_begun(entry, args, now) == StepView::Done(
            Err("project_id"@ + " is required"@),
        ),
        given(args, "project_id"@) && !given(args, "issue_iid"@) ==> composite_begun(
            entry,
            args,
            now,
        ) == StepView::Done(Err("issue_iid"@ + " is required"@)),
        given(args, "project_id"@) && given(args, "issue_iid"@) && !edits(args) ==> composite_begun(
            entry,
            args,
            now,
        ) == StepView::Done(Err("patch is required"@)),
{
    lemma_tool_names();
    lemma_issue_path(args);
}

proof fn lemma_issue_path(args: Args)
    ensures
        crate::issues::issue_path(said(args, "project_id"@), said(args, "issue_iid"@)) == issue_at(
            args,
        ),
{
    let p = "/projects/"@ + segment(said(args, "project_id"@));
    let i = segment(said(args, "issue_iid"@));
    assert(p + ("/issues/"@ + i) =~= p + "/issues/"@ + i);
}

/// The edited description is saved, and nothing else of the issue; a dry run only says
/// what it would be, and whether that is a change. An edit that does not apply is told,
/// and nothing is saved.
pub proof fn law_edits_are_saved(
    executor: Executor,
    reg: Registry,
    entry: Arc<ToolEntry>,
    args: Args,
    resp: ResponseView,
    e: ErrorView,
    now: nat,
)
    requires
        edits(args),
    ensures
        ({
            let task = TaskView { entry, args, stage: StageView::PatchRead };
            let next = executor.resumed(reg, task, Ok(resp), now);
            let original = described(resp.body);
            &&& executor.resumed(reg, task, Err(e), now) == StepView::Done(Err(e.text()))
            &&& match patched(args, original) {
                Err(problem) => next == StepView::Done(Err(problem)),
                Ok(updated) => {
                    &&& wanted(args, "dry_run"@) ==> {
                        &&& next is Done
                        &&& next->Done_0 is Ok
                        &&& next->Done_0->Ok_0 is Object
                        &&& next->Done_0->Ok_0->Object_0.dom() == set![
                            "dry_run"@,
                            "changed"@,
                            "description"@,
                        ]
                        &&& next->Done_0->Ok_0->Object_0["dry_run"@] == JsonView::Bool(true)
                        &&& next->Done_0->Ok_0->Object_0["changed"@] == JsonView::Bool(
                            updated != original,
                        )
                        &&& next->Done_0->Ok_0->Object_0["description"@] == JsonView::Str(updated)
                    }
                    &&& !wanted(args, "dry_run"@) ==> {
                        &&& next is Send
                        &&& next->Send_1 == (TaskView {
                            entry,
                            args,
                            stage: StageView::PatchSave { changed: updated != original },
                        })
                        &&& next->Send_0 is Rest
                        &&& next->Send_0->method == "PUT"@
                        &&& next->Send_0->path == issue_at(args)
                        &&& next->Send_0->query.len() == 0
                        &&& next->Send_0->body is Some
                        &&& next->Send_0->body->0 is Object
                        &&& next->Send_0->body->0->Object_0.dom() == set!["description"@]
                        &&& next->Send_0->body->0->Object_0["description"@] == JsonView::Str(
                            updated,
                        )
                    }
                },
            }
        }),
{
    reveal_strlit("");
    reveal_strlit("dry_run");
    reveal_strlit("changed");
    reveal_strlit("description");
    assert("dry_run"@.len() == 7 && "changed"@.len() == 7 && "description"@.len() == 11);
    assert("dry_run"@[0] == 'd' && "changed"@[0] == 'c');
    lemma_issue_path(args);
    assert(""@ =~= Seq::<char>::empty());
    let task = TaskView { entry, args, stage: StageView::PatchRead };
    let next = executor.resumed(reg, task, Ok(resp), now);
    let original = described(resp.body);
    assert(original == crate::issues::description(resp.body));
    if patched(args, original) is Ok {
        if wanted(args, "dry_run"@) {
            assert(next->Done_0->Ok_0->Object_0.dom() =~= set![
                "dry_run"@,
                "changed"@,
                "description"@,
            ]);
        } else {
            assert(next->Send_0->body->0->Object_0.dom() =~= set!["description"@]);
        }
    }
}

/// What a saved edit answers: the issue as it was saved, and whether it was changed.
pub open spec fn saved(out: Args, issue: JsonView, changed: bool) -> bool {
    &&& out.dom() == set!["issue"@, "changed"@]
    &&& out["issue"@] == issue
    &&& out["changed"@] == JsonView::Bool(changed)
}

/// A saved edit is told with the issue; where a note is wanted, it is left first. What
/// becomes of the note is told too, and never fails the edit.
pub proof fn law_saved_edits(
    executor: Executor,
    reg: Registry,
    entry: Arc<ToolEntry>,
    args: Args,
    changed: bool,
    out: Args,
    resp: ResponseView,
    e: ErrorView,
    now: nat,
)
    requires
        edits(args),
    ensures
        ({
            let task = TaskView { entry, args, stage: StageView::PatchSave { changed } };
            let next = executor.resumed(reg, task, Ok(resp), now);
            &&& executor.resumed(reg, task, Err(e), now) == StepView::Done(Err(e.text()))
            &&& !wanted(args, "create_note"@) ==> {
                &&& next is Done
                &&& next->Done_0 is Ok
                &&& next->Done_0->Ok_0 is Object
                &&& saved(next->Done_0->Ok_0->Object_0, resp.body, changed)
            }
            &&& wanted(args, "create_note"@) ==> {
                &&& next is Send
                &&& next->Send_1.entry == entry
                &&& next->Send_1.args == args
                &&& next->Send_1.stage is PatchNote
                &&& saved(next->Send_1.stage->PatchNote_out, resp.body, changed)
                &&& next->Send_0 is Rest
                &&& next->Send_0->method == "POST"@
                &&& next->Send_0->path == issue_at(args) + "/notes"@
                &&& next->Send_0->query.len() == 0
                &&& next->Send_0->body is Some
                &&& next->Send_0->body->0 is Object
                &&& next->Send_0->body->0->Object_0.dom() == set!["body"@]
                &&& next->Send_0->body->0->Object_0["body"@] == JsonView::Str(
                    "Updated issue description using patch-based tool."@,
                )
            }
        }),
        ({
            let task = TaskView { entry, args, stage: StageView::PatchNote { out } };
            let left = executor.resumed(reg, task, Ok(resp), now);
            let lost = executor.resumed(reg, task, Err(e), now);
            &&& left is Done
            &&& left->Done_0 is Ok
            &&& left->Done_0->Ok_0 is Object
            &&& left->Done_0->Ok_0->Object_0.dom() == out.dom().insert("note"@)
            &&& left->Done_0->Ok_0->Object_0.remove("note"@) == out.remove("note"@)
            &&& left->Done_0->Ok_0->Object_0["note"@] is Object
            &&& left->Done_0->Ok_0->Object_0["note"@]->Object_0 == map![
                "status"@ => JsonView::Str("created"@),
                "note"@ => resp.body,
            ]
            &&& lost is Done
            &&& lost->Done_0 is Ok
            &&& lost->Done_0->Ok_0 is Object
            &&& lost->Done_0->Ok_0->Object_0.remove("note"@) == out.remove("note"@)
            &&& lost->Done_0->Ok_0->Object_0.dom() == out.dom().insert("note"@)
            &&& lost->Done_0->Ok_0->Object_0["note"@] is Object
            &&& lost->Done_0->Ok_0->Object_0["note"@]->Object_0 == map![
                "status"@ => JsonView::Str("failed"@),
                "error"@ => JsonView::Str(e.text()),
            ]
        }),
{
    reveal_strlit("issue");
    reveal_strlit("changed");
    reveal_strlit("body");
    reveal_strlit("note");
    reveal_strlit("status");
    reveal_strlit("error");
    assert("issue"@.len() == 5 && "changed"@.len() == 7);
    assert("note"@.len() == 4 && "status"@.len() == 6 && "error"@.len() == 5);
    lemma_issue_path(args);
    let task = TaskView { entry, args, stage: StageView::PatchSave { changed } };
    let next = executor.resumed(reg, task, Ok(resp), now);
    if wanted(args, "create_note"@) {
        assert(next->Send_1.stage->PatchNote_out.dom() =~= set!["issue"@, "changed"@]);
        assert(next->Send_0->body->0->Object_0.dom() =~= set!["body"@]);
    } else {
        assert(next->Done_0->Ok_0->Object_0.dom() =~= set!["issue"@, "changed"@]);
    }
    let note = TaskView { entry, args, stage: StageView::PatchNote { out } };
    let left = executor.resumed(reg, note, Ok(resp), now);
    let lost = executor.resumed(reg, note, Err(e), now);
    assert(left->Done_0->Ok_0->Object_0.remove("note"@) =~= out.remove("note"@));
    assert(lost->Done_0->Ok_0->Object_0.remove("note"@) =~= out.remove("note"@));
    assert(left->Done_0->Ok_0->Object_0["note"@]->Object_0 =~= map![
        "status"@ => JsonView::Str("created"@),
        "note"@ => resp.body,
    ]);
    assert(lost->Done_0->Ok_0->Object_0["note"@]->Object_0 =~= map![
        "status"@ => JsonView::Str("failed"@),
        "error"@ => JsonView::Str(e.text()),
    ]);
}

} // verus!
