//! Playing manual jobs one after the other, each watched until it ends.

use crate::args::{Args, arg_items, array_arg, required, required_str};
use crate::encode::{enc, segment};
use crate::flow::{Stage, StageView, Step, StepView, Task, TaskView, Watch, WatchView, below_project,
    body_call, call_with, fail, fail_with, failed, get_call, get_plain, project_path, send, sent,
    succeeded};
use crate::gitlab::{ApiError, ApiResponse, ErrorView, ResponseView, answer};
use crate::json::{Json, JsonMap, JsonView, lemma_array_view, lookup, views};
use crate::lists::{scalar_at, scalar_field};
use crate::registry::ToolEntry;
use crate::watch::{Polled, PolledView, poll, polled, start_watch, watch_for, watch_sent};
use std::sync::Arc;
use vstd::prelude::*;
use vstd::string::*;

verus! {

/// The body that starts a job: the variables, where there are any.
pub open spec fn play_body(args: Args) -> Option<JsonView> {
    match lookup(args, "job_variables_attributes"@) {
        Some(JsonView::Array(vars)) => if vars.len() > 0 {
            Some(
                JsonView::Object(
                    Map::<Seq<char>, JsonView>::empty().insert(
                        "job_variables_attributes"@,
                        JsonView::Array(vars),
                    ),
                ),
            )
        } else {
            None
        },
        _ => None,
    }
}

/// The path of a job.
pub open spec fn job_path(project: Seq<char>, id: Seq<char>, rest: Seq<char>) -> Seq<char> {
    project_path(project, "/jobs/"@ + segment(id) + rest)
}

/// The next job is played; as many as have completed went before it.
pub open spec fn play_next(
    entry: Arc<ToolEntry>,
    args: Args,
    completed: Seq<JsonView>,
) -> StepView {
    let at = completed.len() as int;
    match required(args, "project_id"@) {
        Err(e) => failed(e),
        Ok(project) => match arg_items(args, "job_ids"@) {
            None => failed("job_ids must be an array of job ids"@),
            Some(ids) => if at >= ids.len() {
                succeeded(JsonView::Array(completed))
            } else {
                match ids[at].scalar() {
                    None => failed("job_ids entries must be numbers or strings"@),
                    Some(job_id) => sent(
                        body_call("POST"@, job_path(project, job_id, "/play"@), play_body(args)),
                        entry,
                        args,
                        StageView::Played { completed, job_id },
                    ),
                }
            },
        },
    }
}

/// A job was started and is watched; GitLab may have given it a new id.
pub open spec fn played(
    entry: Arc<ToolEntry>,
    args: Args,
    completed: Seq<JsonView>,
    job_id: Seq<char>,
    reply: Result<ResponseView, ErrorView>,
    now: nat,
) -> StepView {
    match reply {
        Err(e) => failed(e.text()),
        Ok(resp) => match required(args, "project_id"@) {
            Err(e) => failed(e),
            Ok(project) => {
                let id = match scalar_field(resp.body, "id"@) {
                    Some(id) => id,
                    None => job_id,
                };
                let watch = watch_for(job_path(project, id, ""@), args, "Job not found"@, now);
                watch_sent(entry, args, watch, StageView::PlayWatch { watch, completed })
            },
        },
    }
}

/// A job is watched until it ends, and then the next one is played.
pub open spec fn play_watched(
    entry: Arc<ToolEntry>,
    args: Args,
    watch: WatchView,
    completed: Seq<JsonView>,
    reply: Result<ResponseView, ErrorView>,
    now: nat,
) -> StepView {
    match polled(watch, reply, now) {
        PolledView::Over(Ok(v)) => play_next(entry, args, completed.push(v)),
        PolledView::Over(Err(e)) => failed(e),
        PolledView::Again(nanos) => StepView::Sleep(
            nanos,
            get_call(watch.path, seq![]),
            TaskView { entry, args, stage: StageView::PlayWatch { watch, completed } },
        ),
    }
}

/// The body that starts a job.
fn body_to_play(args: &JsonMap) -> (r: Option<Json>)
    ensures
        crate::json::seen(r) == play_body(args.fields()),
{
    match args.field("job_variables_attributes") {
        Some(vars) => match vars.as_array() {
            Some(list) => if list.len() > 0 {
                let mut body = JsonMap::empty();
                body.put("job_variables_attributes", vars.copy());
                Some(Json::Object(body))
            } else {
                None
            },
            None => None,
        },
        None => None,
    }
}

/// The path of a job.
fn path_of_job(project: &str, id: &str, rest: &str) -> (r: String)
    ensures
        r@ == job_path(project@, id@, rest@),
{
    let mut tail = "/jobs/".to_string();
    tail.append(enc(id).as_str());
    tail.append(rest);
    below_project(project, tail.as_str())
}

/// The next job is played; as many as have completed went before it.
pub fn play_pipeline_jobs(entry: &Arc<ToolEntry>, args: JsonMap, completed: Vec<Json>) -> (r: Step)
    ensures
        r@ == play_next(*entry, args.fields(), views(completed@)),
{
    let at: usize = completed.len();
    let project = match required_str(&args, "project_id") {
        Ok(p) => p,
        Err(e) => {
            return fail(e.0);
        },
    };
    let ids = match array_arg(&args, "job_ids") {
        Some(ids) => ids,
        None => {
            return fail_with("job_ids must be an array of job ids");
        },
    };
    if at >= ids.len() {
        proof {
            broadcast use lemma_array_view;

        }
        return Step::Done(Ok(Json::Array(completed)));
    }
    assert(views(ids@)[at as int] == ids@[at as int]@);
    let job_id = match ids[at].as_scalar_string() {
        Some(id) => id,
        None => {
            return fail_with("job_ids entries must be numbers or strings");
        },
    };
    let path = path_of_job(project.as_str(), job_id.as_str(), "/play");
    let body = body_to_play(&args);
    send(call_with("POST", path, body), entry, args, Stage::Played { completed, job_id })
}

/// A job was started and is watched.
pub fn on_played(
    entry: &Arc<ToolEntry>,
    args: JsonMap,
    completed: Vec<Json>,
    job_id: String,
    reply: Result<ApiResponse, ApiError>,
    now: u64,
) -> (r: Step)
    ensures
        r@ == played(
            *entry,
            args.fields(),
            views(completed@),
            job_id@,
            answer(reply),
            now as nat,
        ),
{
    let resp = match reply {
        Ok(resp) => resp,
        Err(e) => {
            return fail(e.text());
        },
    };
    let project = match required_str(&args, "project_id") {
        Ok(p) => p,
        Err(e) => {
            return fail(e.0);
        },
    };
    let id = match scalar_at(&resp.body, "id") {
        Some(id) => id,
        None => job_id,
    };
    let path = path_of_job(project.as_str(), id.as_str(), "");
    let watch = start_watch(path, &args, "Job not found", now);
    send(
        get_plain(watch.path.clone()),
        entry,
        args,
        Stage::PlayWatch { watch, completed },
    )
}

/// A job is watched until it ends, and then the next one is played.
pub fn on_play_watch(
    entry: &Arc<ToolEntry>,
    args: JsonMap,
    watch: Watch,
    completed: Vec<Json>,
    reply: Result<ApiResponse, ApiError>,
    now: u64,
) -> (r: Step)
    ensures
        r@ == play_watched(
            *entry,
            args.fields(),
            watch@,
            views(completed@),
            answer(reply),
            now as nat,
        ),
{
    match poll(&watch, reply, now) {
        Polled::Over(Ok(v)) => {
            let ghost held = completed@;
            let mut completed = completed;
            completed.push(v);
            assert(views(completed@) == views(held).push(v@));
            play_pipeline_jobs(entry, args, completed)
        },
        Polled::Over(Err(e)) => fail(e.0),
        Polled::Again(nanos) => Step::Sleep(
            nanos,
            get_plain(watch.path.clone()),
            Task { entry: entry.clone(), args, stage: Stage::PlayWatch { watch, completed } },
        ),
    }
}

// -------------------------------------------------------------------- laws

/// A run that succeeds reports on every job that was asked for, one after the other.
pub proof fn law_every_job_is_reported(
    entry: Arc<ToolEntry>,
    args: Args,
    completed: Seq<JsonView>,
)
    requires
        arg_items(args, "job_ids"@) is Some,
        completed.len() <= arg_items(args, "job_ids"@)->0.len(),
        play_next(entry, args, completed) is Done,
        play_next(entry, args, completed)->Done_0 is Ok,
    ensures
        play_next(entry, args, completed)->Done_0->Ok_0 == JsonView::Array(completed),
        completed.len() == arg_items(args, "job_ids"@)->0.len(),
{
}

} // verus!
