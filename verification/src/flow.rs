//! Tool calls as state machines: what is done next, and what is remembered until the
//! reply comes in.

use crate::args::Args;
use crate::encode::{enc, segment};
use crate::error::ToolError;
use crate::gitlab::{ApiCall, CallView, pairs_seen};
use crate::json::{Json, JsonMap, JsonView, seen, views};
use crate::registry::ToolEntry;
use std::sync::Arc;
use vstd::prelude::*;
use vstd::string::*;

verus! {

/// What a wait is for, and until when. Times are in nanoseconds.
#[derive(Debug)]
pub struct Watch {
    pub path: String,
    pub not_found: String,
    pub interval: u128,
    pub deadline: u128,
}

/// A wait as a mathematical value.
pub struct WatchView {
    pub path: Seq<char>,
    pub not_found: Seq<char>,
    pub interval: nat,
    pub deadline: nat,
}

impl View for Watch {
    type V = WatchView;

    open spec fn view(&self) -> WatchView {
        WatchView {
            path: self.path@,
            not_found: self.not_found@,
            interval: self.interval as nat,
            deadline: self.deadline as nat,
        }
    }
}

/// How far a call has come: which reply it waits for, and what it has learned.
#[derive(Debug)]
pub enum Stage {
    /// The merge request of a source branch is looked up.
    Iid,
    /// The one call of a REST tool is out.
    Rest,
    /// A caller's own GraphQL document is out.
    Passthrough,
    /// The full path for one of the arguments is looked up.
    Lookup { resolved: JsonMap, at: usize, path: String },
    /// The global id of a work item is looked up.
    WorkItem { resolved: JsonMap, path: String, iid: String },
    /// The global id of a work item type is looked up.
    WorkItemType { resolved: JsonMap, path: String, wanted: String },
    /// The GraphQL document of a tool is out.
    Query { resolved: JsonMap },
    /// Settings are read again after they were changed.
    Reread { read: Arc<ToolEntry> },
    /// An object is watched until its status is final.
    Watch { watch: Watch },
    /// A job is started.
    Played { completed: Vec<Json>, job_id: String },
    /// A started job is watched.
    PlayWatch { watch: Watch, completed: Vec<Json> },
    /// A page of webhook events is out.
    Webhook { page: u64 },
    /// The default branch of a project is looked up.
    DefaultBranch,
    /// Whether a file exists is looked up.
    FileProbe,
    /// Who the token belongs to is looked up.
    MyIssues,
    /// The issue that is to be edited is read.
    PatchRead,
    /// The edited issue is saved.
    PatchSave { changed: bool },
    /// A note on the edit is left.
    PatchNote { out: JsonMap },
    /// A user is looked up.
    Users { at: usize, out: JsonMap },
    /// The token is tried as a user's.
    Health,
    /// The token is tried as a job's.
    HealthJob { error: String },
    /// The version of the instance is asked for.
    HealthVersion,
    /// The last call is out; its body is the result.
    Plain,
}

/// How far a call has come, as a mathematical value.
pub enum StageView {
    Iid,
    Rest,
    Passthrough,
    Lookup { resolved: Args, at: int, path: Seq<char> },
    WorkItem { resolved: Args, path: Seq<char>, iid: Seq<char> },
    WorkItemType { resolved: Args, path: Seq<char>, wanted: Seq<char> },
    Query { resolved: Args },
    Reread { read: Arc<ToolEntry> },
    Watch { watch: WatchView },
    Played { completed: Seq<JsonView>, job_id: Seq<char> },
    PlayWatch { watch: WatchView, completed: Seq<JsonView> },
    Webhook { page: nat },
    DefaultBranch,
    FileProbe,
    MyIssues,
    PatchRead,
    PatchSave { changed: bool },
    PatchNote { out: Args },
    Users { at: int, out: Args },
    Health,
    HealthJob { error: Seq<char> },
    HealthVersion,
    Plain,
}

impl View for Stage {
    type V = StageView;

    open spec fn view(&self) -> StageView {
        match self {
            Stage::Iid => StageView::Iid,
            Stage::Rest => StageView::Rest,
            Stage::Passthrough => StageView::Passthrough,
            Stage::Lookup { resolved, at, path } => StageView::Lookup {
                resolved: resolved.fields(),
                at: *at as int,
                path: path@,
            },
            Stage::WorkItem { resolved, path, iid } => StageView::WorkItem {
                resolved: resolved.fields(),
                path: path@,
                iid: iid@,
            },
            Stage::WorkItemType { resolved, path, wanted } => StageView::WorkItemType {
                resolved: resolved.fields(),
                path: path@,
                wanted: wanted@,
            },
            Stage::Query { resolved } => StageView::Query { resolved: resolved.fields() },
            Stage::Reread { read } => StageView::Reread { read: *read },
            Stage::Watch { watch } => StageView::Watch { watch: watch@ },
            Stage::Played { completed, job_id } => StageView::Played {
                completed: views(completed@),
                job_id: job_id@,
            },
            Stage::PlayWatch { watch, completed } => StageView::PlayWatch {
                watch: watch@,
                completed: views(completed@),
            },
            Stage::Webhook { page } => StageView::Webhook { page: *page as nat },
            Stage::DefaultBranch => StageView::DefaultBranch,
            Stage::FileProbe => StageView::FileProbe,
            Stage::MyIssues => StageView::MyIssues,
            Stage::PatchRead => StageView::PatchRead,
            Stage::PatchSave { changed } => StageView::PatchSave { changed: *changed },
            Stage::PatchNote { out } => StageView::PatchNote { out: out.fields() },
            Stage::Users { at, out } => StageView::Users { at: *at as int, out: out.fields() },
            Stage::Health => StageView::Health,
            Stage::HealthJob { error } => StageView::HealthJob { error: error@ },
            Stage::HealthVersion => StageView::HealthVersion,
            Stage::Plain => StageView::Plain,
        }
    }
}

/// A call that waits for a reply: the tool, its arguments, and how far it has come.
#[derive(Debug)]
pub struct Task {
    pub entry: Arc<ToolEntry>,
    pub args: JsonMap,
    pub stage: Stage,
}

/// A waiting call as a mathematical value.
pub struct TaskView {
    pub entry: Arc<ToolEntry>,
    pub args: Args,
    pub stage: StageView,
}

impl View for Task {
    type V = TaskView;

    open spec fn view(&self) -> TaskView {
        TaskView { entry: self.entry, args: self.args.fields(), stage: self.stage@ }
    }
}

/// What is done next: a call is sent, at once or after a pause, or the result is in.
#[derive(Debug)]
pub enum Step {
    Send(ApiCall, Task),
    /// The call is sent after so many nanoseconds.
    Sleep(u128, ApiCall, Task),
    Done(Result<Json, ToolError>),
}

/// What is done next, as a mathematical value.
pub enum StepView {
    Send(CallView, TaskView),
    Sleep(nat, CallView, TaskView),
    Done(Result<JsonView, Seq<char>>),
}

/// A result by its view.
pub open spec fn result_seen(r: Result<Json, ToolError>) -> Result<JsonView, Seq<char>> {
    match r {
        Ok(v) => Ok(v@),
        Err(e) => Err(e.0@),
    }
}

impl View for Step {
    type V = StepView;

    open spec fn view(&self) -> StepView {
        match self {
            Step::Send(call, task) => StepView::Send(call@, task@),
            Step::Sleep(nanos, call, task) => StepView::Sleep(*nanos as nat, call@, task@),
            Step::Done(r) => StepView::Done(result_seen(*r)),
        }
    }
}

// ------------------------------------------------------------------- steps

/// A call that fails.
pub open spec fn failed(message: Seq<char>) -> StepView {
    StepView::Done(Err(message))
}

/// A call that succeeds.
pub open spec fn succeeded(value: JsonView) -> StepView {
    StepView::Done(Ok(value))
}

/// A call is sent, and the tool waits at a stage.
pub open spec fn sent(call: CallView, entry: Arc<ToolEntry>, args: Args, stage: StageView) -> StepView {
    StepView::Send(call, TaskView { entry, args, stage })
}

/// A call that fails.
pub fn fail(message: String) -> (r: Step)
    ensures
        r@ == failed(message@),
{
    Step::Done(Err(ToolError(message)))
}

/// A call that fails with a fixed message.
pub fn fail_with(message: &str) -> (r: Step)
    ensures
        r@ == failed(message@),
{
    Step::Done(Err(ToolError(message.to_string())))
}

/// A call that succeeds.
pub fn succeed(value: Json) -> (r: Step)
    ensures
        r@ == succeeded(value@),
{
    Step::Done(Ok(value))
}

/// A call is sent, and the tool waits at a stage.
pub fn send(call: ApiCall, entry: &Arc<ToolEntry>, args: JsonMap, stage: Stage) -> (r: Step)
    ensures
        r@ == sent(call@, *entry, args.fields(), stage@),
{
    Step::Send(call, Task { entry: entry.clone(), args, stage })
}

// ------------------------------------------------------------------- calls

/// A REST call that reads.
pub open spec fn get_call(path: Seq<char>, query: Seq<(Seq<char>, Seq<char>)>) -> CallView {
    CallView::Rest { method: "GET"@, path, query, body: None }
}

/// A REST call with a body.
pub open spec fn body_call(method: Seq<char>, path: Seq<char>, body: Option<JsonView>) -> CallView {
    CallView::Rest { method, path, query: seq![], body }
}

/// A path below a project.
pub open spec fn project_path(project: Seq<char>, rest: Seq<char>) -> Seq<char> {
    "/projects/"@ + segment(project) + rest
}

/// A REST call that reads.
pub fn get(path: String, query: Vec<(String, String)>) -> (r: ApiCall)
    ensures
        r@ == get_call(path@, pairs_seen(query@)),
{
    ApiCall::Rest { method: "GET".to_string(), path, query, body: None }
}

/// A REST call that reads, without a query string.
pub fn get_plain(path: String) -> (r: ApiCall)
    ensures
        r@ == get_call(path@, seq![]),
{
    let none: Vec<(String, String)> = Vec::new();
    assert(pairs_seen(none@) == Seq::<(Seq<char>, Seq<char>)>::empty());
    get(path, none)
}

/// A REST call with a body.
pub fn call_with(method: &str, path: String, body: Option<Json>) -> (r: ApiCall)
    ensures
        r@ == body_call(method@, path@, seen(body)),
{
    let none: Vec<(String, String)> = Vec::new();
    assert(pairs_seen(none@) == Seq::<(Seq<char>, Seq<char>)>::empty());
    ApiCall::Rest { method: method.to_string(), path, query: none, body }
}

/// A query string of one pair.
pub fn one_pair(key: &str, value: &str) -> (r: Vec<(String, String)>)
    ensures
        pairs_seen(r@) == seq![(key@, value@)],
{
    let out: Vec<(String, String)> = vec![(key.to_string(), value.to_string())];
    assert(pairs_seen(out@) == seq![(key@, value@)]);
    out
}

/// A query string of two pairs.
pub fn two_pairs(key: &str, value: &str, key2: &str, value2: &str) -> (r: Vec<(String, String)>)
    ensures
        pairs_seen(r@) == seq![(key@, value@), (key2@, value2@)],
{
    let out: Vec<(String, String)> = vec![
        (key.to_string(), value.to_string()),
        (key2.to_string(), value2.to_string()),
    ];
    assert(pairs_seen(out@) == seq![(key@, value@), (key2@, value2@)]);
    out
}

/// A path below a project.
pub fn below_project(project: &str, rest: &str) -> (r: String)
    ensures
        r@ == project_path(project@, rest@),
{
    let mut out = "/projects/".to_string();
    out.append(enc(project).as_str());
    out.append(rest);
    out
}

} // verus!
