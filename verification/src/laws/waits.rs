//! Laws of the tools that wait: for a pipeline, for a job, for jobs that they start.

use crate::args::{Args, number_argument};
use crate::encode::segment;
use crate::exec::{Executor, composite_begun};
use crate::flow::{StageView, StepView, TaskView, WatchView};
use crate::gitlab::{CallView, ErrorView, ResponseView};
use crate::jobs::play_next;
use crate::json::JsonView;
use crate::registry::{Registry, ToolEntry};
use std::sync::Arc;
use vstd::prelude::*;
use vstd::string::*;

verus! {

/// The names of the composite tools differ.
pub proof fn lemma_tool_names()
    ensures
        "wait_for_pipeline"@.len() == 17,
        "wait_for_pipeline"@[0] == 'w',
        "wait_for_job"@.len() == 12,
        "wait_for_job"@[0] == 'w',
        "play_pipeline_jobs"@.len() == 18,
        "get_webhook_event"@.len() == 17,
        "get_webhook_event"@[0] == 'g',
        "create_branch"@.len() == 13,
        "create_or_update_file"@.len() == 21,
        "my_issues"@.len() == 9,
        "my_issues"@[0] == 'm',
        "update_issue_description_patch"@.len() == 30,
        "get_users"@.len() == 9,
        "get_users"@[0] == 'g',
        "health_check"@.len() == 12,
        "health_check"@[0] == 'h',
{
    reveal_strlit("wait_for_pipeline");
    reveal_strlit("wait_for_job");
    reveal_strlit("play_pipeline_jobs");
    reveal_strlit("get_webhook_event");
    reveal_strlit("create_branch");
    reveal_strlit("create_or_update_file");
    reveal_strlit("my_issues");
    reveal_strlit("update_issue_description_patch");
    reveal_strlit("get_users");
    reveal_strlit("health_check");
}

/// Whether an argument can be read as text.
pub open spec fn given(args: Args, key: Seq<char>) -> bool {
    args.dom().contains(key) && args[key].scalar() is Some
}

/// An argument as text.
pub open spec fn said(args: Args, key: Seq<char>) -> Seq<char> {
    args[key].scalar()->0
}

/// A call that only reads.
pub open spec fn reading(path: Seq<char>, query: Seq<(Seq<char>, Seq<char>)>) -> CallView {
    CallView::Rest { method: "GET"@, path, query, body: None }
}

/// What a wait is for: the object at a path, until so many seconds from now (three
/// hundred unless told), asked for every so many seconds (five unless told, at least
/// one).
pub open spec fn waits_for(
    watch: WatchView,
    path: Seq<char>,
    not_found: Seq<char>,
    args: Args,
    now: nat,
) -> bool {
    let every = number_argument(args, "poll_interval_seconds"@, 5);
    &&& watch.path == path
    &&& watch.not_found == not_found
    &&& every >= 1 ==> watch.interval == every * 1000000000
    &&& every == 0 ==> watch.interval == 1000000000
    &&& watch.deadline == now + number_argument(args, "timeout_seconds"@, 300) * 1000000000
}

/// Waiting for a pipeline begins with asking for it.
pub proof fn law_waiting_for_a_pipeline(entry: Arc<ToolEntry>, args: Args, now: nat)
    requires
        entry.meta.name@ == "wait_for_pipeline"@,
    ensures
        given(args, "project_id"@) && given(args, "pipeline_id"@) ==> ({
            let path = "/projects/"@ + segment(said(args, "project_id"@)) + "/pipelines/"@ + segment(
                said(args, "pipeline_id"@),
            );
            let first = composite_begun(entry, args, now);
            &&& first is Send
            &&& first->Send_0 == reading(path, seq![])
            &&& first->Send_1.entry == entry
            &&& first->Send_1.args == args
            &&& first->Send_1.stage is Watch
            &&& waits_for(
                first->Send_1.stage->Watch_watch,
                path,
                "Pipeline not found"@,
                args,
                now,
            )
        }),
        !given(args, "project_id"@) ==> composite_begun(entry, args, now) == StepView::Done(
            Err("project_id"@ + " is required"@),
        ),
        given(args, "project_id"@) && !given(args, "pipeline_id"@) ==> composite_begun(
            entry,
            args,
            now,
        ) == StepView::Done(Err("pipeline_id"@ + " is required"@)),
{
    lemma_tool_names();
    let p = "/projects/"@ + segment(said(args, "project_id"@));
    let id = segment(said(args, "pipeline_id"@));
    assert(p + ("/pipelines/"@ + id) =~= p + "/pipelines/"@ + id);
}

/// Waiting for a job begins with asking for it.
pub proof fn law_waiting_for_a_job(entry: Arc<ToolEntry>, args: Args, now: nat)
    requires
        entry.meta.name@ == "wait_for_job"@,
    ensures
        given(args, "project_id"@) && given(args, "job_id"@) ==> ({
            let path = "/projects/"@ + segment(said(args, "project_id"@)) + "/jobs/"@ + segment(
                said(args, "job_id"@),
            );
            let first = composite_begun(entry, args, now);
            &&& first is Send
            &&& first->Send_0 == reading(path, seq![])
            &&& first->Send_1.entry == entry
            &&& first->Send_1.args == args
            &&& first->Send_1.stage is Watch
            &&& waits_for(first->Send_1.stage->Watch_watch, path, "Job not found"@, args, now)
        }),
        !given(args, "project_id"@) ==> composite_begun(entry, args, now) == StepView::Done(
            Err("project_id"@ + " is required"@),
        ),
        given(args, "project_id"@) && !given(args, "job_id"@) ==> composite_begun(entry, args, now)
            == StepView::Done(Err("job_id"@ + " is required"@)),
{
    lemma_tool_names();
    let p = "/projects/"@ + segment(said(args, "project_id"@));
    let id = segment(said(args, "job_id"@));
    assert(p + ("/jobs/"@ + id) =~= p + "/jobs/"@ + id);
}

/// The statuses that nothing follows.
pub open spec fn final_status(status: Seq<char>) -> bool {
    ||| status == "success"@
    ||| status == "failed"@
    ||| status == "canceled"@
    ||| status == "skipped"@
    ||| status == "manual"@
}

/// The status of an object, where it has one.
pub open spec fn status_of(body: JsonView) -> Option<Seq<char>> {
    match body {
        JsonView::Object(m) => if m.dom().contains("status"@) {
            match m["status"@] {
                JsonView::Str(s) => Some(s),
                _ => None,
            }
        } else {
            None
        },
        _ => None,
    }
}

/// A wait is over when the object has a final status, whatever the time, or has no
/// status at all; the object is the result. While it has any other status and there is
/// time left, it is asked for again, unchanged, after the interval or at the deadline,
/// whichever is sooner. At the deadline the wait fails and says what the status was.
pub proof fn law_waiting(
    executor: Executor,
    reg: Registry,
    entry: Arc<ToolEntry>,
    args: Args,
    watch: WatchView,
    resp: ResponseView,
    now: nat,
)
    ensures
        ({
            let task = TaskView { entry, args, stage: StageView::Watch { watch } };
            let next = executor.resumed(reg, task, Ok(resp), now);
            match status_of(resp.body) {
                None => next == StepView::Done(Ok(resp.body)),
                Some(status) => {
                    &&& final_status(status) ==> next == StepView::Done(Ok(resp.body))
                    &&& !final_status(status) && now < watch.deadline ==> {
                        &&& next is Sleep
                        &&& next->Sleep_0 <= watch.interval
                        &&& next->Sleep_0 <= watch.deadline - now
                        &&& next->Sleep_0 == watch.interval || next->Sleep_0 == watch.deadline - now
                        &&& next->Sleep_1 == reading(watch.path, seq![])
                        &&& next->Sleep_2 == task
                    }
                    &&& !final_status(status) && now >= watch.deadline ==> next == StepView::Done(
                        Err("Timed out waiting for terminal status; last status: "@ + status),
                    )
                },
            }
        }),
{
}

/// A wait for what is not there says that it was not found; any other error is told as
/// it is.
pub proof fn law_waiting_in_vain(
    executor: Executor,
    reg: Registry,
    entry: Arc<ToolEntry>,
    args: Args,
    watch: WatchView,
    completed: Seq<JsonView>,
    e: ErrorView,
    now: nat,
)
    ensures
        ({
            let alone = executor.resumed(
                reg,
                TaskView { entry, args, stage: StageView::Watch { watch } },
                Err(e),
                now,
            );
            let played = executor.resumed(
                reg,
                TaskView { entry, args, stage: StageView::PlayWatch { watch, completed } },
                Err(e),
                now,
            );
            &&& e.status == 404 ==> alone == StepView::Done(Err(watch.not_found)) && played
                == StepView::Done(Err(watch.not_found))
            &&& e.status != 404 ==> alone == StepView::Done(Err(e.text())) && played
                == StepView::Done(Err(e.text()))
        }),
{
}

// -------------------------------------------------------------------- jobs

/// The jobs are started one after the other, each with the variables that were given,
/// where there are any; after the last one, what became of all of them is the result.
pub proof fn law_jobs_are_started(
    entry: Arc<ToolEntry>,
    args: Args,
    completed: Seq<JsonView>,
    now: nat,
)
    ensures
        entry.meta.name@ == "play_pipeline_jobs"@ ==> composite_begun(entry, args, now)
            == play_next(entry, args, seq![]),
        !given(args, "project_id"@) ==> play_next(entry, args, completed) == StepView::Done(
            Err("project_id"@ + " is required"@),
        ),
        given(args, "project_id"@) && !(args.dom().contains("job_ids"@)
            && args["job_ids"@] is Array) ==> play_next(entry, args, completed) == StepView::Done(
            Err("job_ids must be an array of job ids"@),
        ),
        given(args, "project_id"@) && args.dom().contains("job_ids"@) && args["job_ids"@] is Array
            ==> ({
            let ids = args["job_ids"@]->Array_0;
            let at = completed.len() as int;
            let next = play_next(entry, args, completed);
            &&& at >= ids.len() ==> next == StepView::Done(Ok(JsonView::Array(completed)))
            &&& at < ids.len() && ids[at].scalar() is None ==> next == StepView::Done(
                Err("job_ids entries must be numbers or strings"@),
            )
            &&& at < ids.len() && ids[at].scalar() is Some ==> {
                &&& next is Send
                &&& next->Send_1 == (TaskView {
                    entry,
                    args,
                    stage: StageView::Played { completed, job_id: ids[at].scalar()->0 },
                })
                &&& next->Send_0 is Rest
                &&& next->Send_0->method == "POST"@
                &&& next->Send_0->path == "/projects/"@ + segment(said(args, "project_id"@))
                    + "/jobs/"@ + segment(ids[at].scalar()->0) + "/play"@
                &&& next->Send_0->query.len() == 0
                &&& ({
                    let vars = "job_variables_attributes"@;
                    let any = args.dom().contains(vars) && (args[vars] matches JsonView::Array(v)
                        && v.len() > 0);
                    &&& !any ==> next->Send_0->body is None
                    &&& any ==> {
                        &&& next->Send_0->body is Some
                        &&& next->Send_0->body->0 is Object
                        &&& next->Send_0->body->0->Object_0.dom() == set![vars]
                        &&& next->Send_0->body->0->Object_0[vars] == args[vars]
                    }
                })
            }
        }),
{
    lemma_tool_names();
    if given(args, "project_id"@) && args.dom().contains("job_ids"@) && args["job_ids"@] is Array {
        let ids = args["job_ids"@]->Array_0;
        let at = completed.len() as int;
        let vars = "job_variables_attributes"@;
        if at < ids.len() && ids[at].scalar() is Some {
            let p = "/projects/"@ + segment(said(args, "project_id"@));
            let id = segment(ids[at].scalar()->0);
            assert(p + ("/jobs/"@ + id + "/play"@) =~= p + "/jobs/"@ + id + "/play"@);
            let next = play_next(entry, args, completed);
            if next->Send_0->body is Some {
                assert(next->Send_0->body->0->Object_0.dom() =~= set![vars]);
            }
        }
    }
}

/// A job that was started is watched, under the id that GitLab gave it; once it is over
/// it is among the results, and the next one is started.
pub proof fn law_started_jobs_are_watched(
    executor: Executor,
    reg: Registry,
    entry: Arc<ToolEntry>,
    args: Args,
    completed: Seq<JsonView>,
    job_id: Seq<char>,
    watch: WatchView,
    resp: ResponseView,
    e: ErrorView,
    now: nat,
)
    requires
        given(args, "project_id"@),
    ensures
        ({
            let task = TaskView { entry, args, stage: StageView::Played { completed, job_id } };
            let next = executor.resumed(reg, task, Ok(resp), now);
            let renamed = resp.body matches JsonView::Object(m) && given(m, "id"@);
            let id = if renamed {
                said(resp.body->Object_0, "id"@)
            } else {
                job_id
            };
            let path = "/projects/"@ + segment(said(args, "project_id"@)) + "/jobs/"@ + segment(id);
            &&& next is Send
            &&& next->Send_0 == reading(path, seq![])
            &&& next->Send_1.entry == entry
            &&& next->Send_1.args == args
            &&& next->Send_1.stage is PlayWatch
            &&& next->Send_1.stage->PlayWatch_completed == completed
            &&& waits_for(
                next->Send_1.stage->PlayWatch_watch,
                path,
                "Job not found"@,
                args,
                now,
            )
            &&& executor.resumed(reg, task, Err(e), now) == StepView::Done(Err(e.text()))
        }),
        ({
            let task = TaskView { entry, args, stage: StageView::PlayWatch { watch, completed } };
            let next = executor.resumed(reg, task, Ok(resp), now);
            match status_of(resp.body) {
                None => next == play_next(entry, args, completed.push(resp.body)),
                Some(status) => {
                    &&& final_status(status) ==> next == play_next(
                        entry,
                        args,
                        completed.push(resp.body),
                    )
                    &&& !final_status(status) && now < watch.deadline ==> {
                        &&& next is Sleep
                        &&& next->Sleep_0 <= watch.interval
                        &&& next->Sleep_0 <= watch.deadline - now
                        &&& next->Sleep_0 == watch.interval || next->Sleep_0 == watch.deadline - now
                        &&& next->Sleep_1 == reading(watch.path, seq![])
                        &&& next->Sleep_2 == task
                    }
                    &&& !final_status(status) && now >= watch.deadline ==> next == StepView::Done(
                        Err("Timed out waiting for terminal status; last status: "@ + status),
                    )
                },
            }
        }),
{
    reveal_strlit("");
    let p = "/projects/"@ + segment(said(args, "project_id"@));
    let own = segment(job_id);
    assert(p + ("/jobs/"@ + own + ""@) =~= p + "/jobs/"@ + own);
    if let JsonView::Object(m) = resp.body {
        let id = segment(said(m, "id"@));
        assert(p + ("/jobs/"@ + id + ""@) =~= p + "/jobs/"@ + id);
    }
}

} // verus!
