//! Waiting for a pipeline or a job to reach a final status.

use crate::args::{Args, number_arg, number_argument, required, required_str};
use crate::encode::{enc, segment};
use crate::error::ToolError;
use crate::flow::{Stage, StageView, Step, StepView, Task, TaskView, Watch, WatchView, below_project,
    fail, failed, get_call, get_plain, project_path, result_seen, send, sent};
use crate::gitlab::{ApiError, ApiResponse, ErrorView, ResponseView, answer};
use crate::json::{Json, JsonMap, JsonView};
use crate::lists::{text_at, text_field};
use crate::registry::ToolEntry;
use crate::text::same;
use std::sync::Arc;
use vstd::prelude::*;
use vstd::string::*;

verus! {

/// Nanoseconds in a second.
pub const SECOND: u128 = 1_000_000_000;

/// The statuses that nothing follows.
pub open spec fn terminal(status: Seq<char>) -> bool {
    status == "success"@ || status == "failed"@ || status == "canceled"@ || status == "skipped"@
        || status == "manual"@
}

/// What a poll came to.
pub enum Polled {
    /// The wait is over.
    Over(Result<Json, ToolError>),
    /// The status is asked for again after so many nanoseconds.
    Again(u128),
}

/// What a poll came to, as a mathematical value.
pub enum PolledView {
    Over(Result<JsonView, Seq<char>>),
    Again(nat),
}

impl View for Polled {
    type V = PolledView;

    open spec fn view(&self) -> PolledView {
        match self {
            Polled::Over(r) => PolledView::Over(result_seen(*r)),
            Polled::Again(nanos) => PolledView::Again(*nanos as nat),
        }
    }
}

/// The lesser of two times.
pub open spec fn sooner(a: nat, b: nat) -> nat {
    if a <= b {
        a
    } else {
        b
    }
}

/// A wait for an object, as the arguments want it: how long in all, and how long
/// between two polls, at least a second.
pub open spec fn watch_for(path: Seq<char>, args: Args, not_found: Seq<char>, now: nat) -> WatchView {
    let timeout = number_argument(args, "timeout_seconds"@, 300) as nat;
    let interval = number_argument(args, "poll_interval_seconds"@, 5) as nat;
    WatchView {
        path,
        not_found,
        interval: (if interval < 1 {
            1
        } else {
            interval
        }) * (SECOND as nat),
        deadline: now + timeout * (SECOND as nat),
    }
}

/// What the reply to a poll means. An object without a status is handed back as it
/// is: there is nothing to wait for.
pub open spec fn polled(watch: WatchView, reply: Result<ResponseView, ErrorView>, now: nat) -> PolledView {
    match reply {
        Ok(resp) => match text_field(resp.body, "status"@) {
            None => PolledView::Over(Ok(resp.body)),
            Some(status) => if terminal(status) {
                PolledView::Over(Ok(resp.body))
            } else if now >= watch.deadline {
                PolledView::Over(
                    Err("Timed out waiting for terminal status; last status: "@ + status),
                )
            } else {
                PolledView::Again(sooner(watch.interval, (watch.deadline - now) as nat))
            },
        },
        Err(e) => PolledView::Over(
            Err(
                if e.status == 404 {
                    watch.not_found
                } else {
                    e.text()
                },
            ),
        ),
    }
}

/// The status of a watched object is asked for.
pub open spec fn watch_sent(
    entry: Arc<ToolEntry>,
    args: Args,
    watch: WatchView,
    stage: StageView,
) -> StepView {
    sent(get_call(watch.path, seq![]), entry, args, stage)
}

/// A tool that watches one object begins.
pub open spec fn wait_begun(
    entry: Arc<ToolEntry>,
    args: Args,
    kind: Seq<char>,
    id_key: Seq<char>,
    not_found: Seq<char>,
    now: nat,
) -> StepView {
    match required(args, "project_id"@) {
        Err(e) => failed(e),
        Ok(project) => match required(args, id_key) {
            Err(e) => failed(e),
            Ok(id) => {
                let watch = watch_for(
                    project_path(project, kind + segment(id)),
                    args,
                    not_found,
                    now,
                );
                watch_sent(entry, args, watch, StageView::Watch { watch })
            },
        },
    }
}

/// A tool that watches one object goes on with the reply to a poll.
pub open spec fn waited(
    entry: Arc<ToolEntry>,
    args: Args,
    watch: WatchView,
    reply: Result<ResponseView, ErrorView>,
    now: nat,
) -> StepView {
    match polled(watch, reply, now) {
        PolledView::Over(r) => StepView::Done(r),
        PolledView::Again(nanos) => StepView::Sleep(
            nanos,
            get_call(watch.path, seq![]),
            TaskView { entry, args, stage: StageView::Watch { watch } },
        ),
    }
}

/// A wait for an object, as the arguments want it.
pub fn start_watch(path: String, args: &JsonMap, not_found: &str, now: u64) -> (r: Watch)
    ensures
        r@ == watch_for(path@, args.fields(), not_found@, now as nat),
{
    let timeout: u64 = number_arg(args, "timeout_seconds", 300);
    let wanted: u64 = number_arg(args, "poll_interval_seconds", 5);
    let interval: u64 = if wanted < 1 {
        1
    } else {
        wanted
    };
    Watch {
        path,
        not_found: not_found.to_string(),
        interval: (interval as u128) * SECOND,
        deadline: (now as u128) + (timeout as u128) * SECOND,
    }
}

/// Whether nothing follows a status.
fn is_terminal(status: &str) -> (r: bool)
    ensures
        r == terminal(status@),
{
    same(status, "success") || same(status, "failed") || same(status, "canceled") || same(
        status,
        "skipped",
    ) || same(status, "manual")
}

/// What the reply to a poll means.
pub fn poll(watch: &Watch, reply: Result<ApiResponse, ApiError>, now: u64) -> (r: Polled)
    ensures
        r@ == polled(watch@, answer(reply), now as nat),
{
    let resp = match reply {
        Ok(resp) => resp,
        Err(e) => {
            return if e.status == 404 {
                Polled::Over(Err(ToolError(watch.not_found.clone())))
            } else {
                Polled::Over(Err(ToolError(e.text())))
            };
        },
    };
    let status = match text_at(&resp.body, "status") {
        Some(s) => s.to_string(),
        None => {
            return Polled::Over(Ok(resp.body));
        },
    };
    if is_terminal(status.as_str()) {
        return Polled::Over(Ok(resp.body));
    }
    if (now as u128) >= watch.deadline {
        return Polled::Over(
            Err(
                ToolError(
                    "Timed out waiting for terminal status; last status: ".to_string().concat(
                        status.as_str(),
                    ),
                ),
            ),
        );
    }
    let left: u128 = watch.deadline - now as u128;
    Polled::Again(
        if watch.interval <= left {
            watch.interval
        } else {
            left
        },
    )
}

/// A tool that watches one object begins: fetch immediately, then poll until the
/// object reaches a terminal status.
pub fn wait_for(
    entry: &Arc<ToolEntry>,
    args: JsonMap,
    kind: &str,
    id_key: &str,
    not_found: &str,
    now: u64,
) -> (r: Step)
    ensures
        r@ == wait_begun(*entry, args.fields(), kind@, id_key@, not_found@, now as nat),
{
    let project = match required_str(&args, "project_id") {
        Ok(p) => p,
        Err(e) => {
            return fail(e.0);
        },
    };
    let id = match required_str(&args, id_key) {
        Ok(i) => i,
        Err(e) => {
            return fail(e.0);
        },
    };
    let rest = kind.to_string().concat(enc(id.as_str()).as_str());
    let path = below_project(project.as_str(), rest.as_str());
    let watch = start_watch(path, &args, not_found, now);
    send(get_plain(watch.path.clone()), entry, args, Stage::Watch { watch })
}

/// A tool that watches one object goes on with the reply to a poll.
pub fn on_watch(
    entry: &Arc<ToolEntry>,
    args: JsonMap,
    watch: Watch,
    reply: Result<ApiResponse, ApiError>,
    now: u64,
) -> (r: Step)
    ensures
        r@ == waited(*entry, args.fields(), watch@, answer(reply), now as nat),
{
    match poll(&watch, reply, now) {
        Polled::Over(r) => Step::Done(r),
        Polled::Again(nanos) => Step::Sleep(
            nanos,
            get_plain(watch.path.clone()),
            Task { entry: entry.clone(), args, stage: Stage::Watch { watch } },
        ),
    }
}

// -------------------------------------------------------------------- laws

/// A wait goes on just while the object has a status that is not final and there is
/// time left.
pub proof fn law_waiting_goes_on(
    watch: WatchView,
    reply: Result<ResponseView, ErrorView>,
    now: nat,
)
    ensures
        polled(watch, reply, now) is Again <==> {
            &&& reply is Ok
            &&& text_field(reply->Ok_0.body, "status"@) is Some
            &&& !terminal(text_field(reply->Ok_0.body, "status"@)->0)
            &&& now < watch.deadline
        },
{
}

/// A pause never reaches beyond the deadline, never lasts longer than the interval,
/// and is never empty.
pub proof fn law_pauses_end_by_the_deadline(
    path: Seq<char>,
    args: Args,
    not_found: Seq<char>,
    start: nat,
    reply: Result<ResponseView, ErrorView>,
    now: nat,
)
    requires
        polled(watch_for(path, args, not_found, start), reply, now) is Again,
    ensures
        ({
            let watch = watch_for(path, args, not_found, start);
            let pause = polled(watch, reply, now)->Again_0;
            0 < pause <= watch.interval && now + pause <= watch.deadline
        }),
{
    let interval = number_argument(args, "poll_interval_seconds"@, 5) as nat;
    assert((if interval < 1 {
        1
    } else {
        interval
    }) * (SECOND as nat) >= SECOND) by (nonlinear_arith);
}

} // verus!
