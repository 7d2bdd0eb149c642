//! The steps of the commands that find a job in the latest pipeline of a branch
//! or commit, then download its artifacts or start it again.
//!
//! The program around the library performs each HTTP request and reports what
//! came back as an `Event`; `step` decides the next stage and the next request.

use vstd::prelude::*;
use crate::bodies::{play_body_spec, retry_body_spec, retry_request_spec};
use crate::error::{CliError, CliErrorView};
use crate::model::{JobDetail, JobView, Pipeline, TriggeredJob};
use crate::pipeline::{
    check_job_status, find_job, has_job_named, interpret_retry_reply, is_busy_status,
    is_first_job_named, parse_gid_spec,
};
use crate::text::{text_eq, views};
use crate::requests::{
    HttpRequest, RequestView, download_artifacts, get_pipeline_by_ref, get_pipeline_by_sha,
    play_job, request_view, retry_job, retry_job_with_variables,
};
use crate::url::{
    graphql_url_spec, job_url_spec, pipeline_jobs_url, pipeline_jobs_url_spec,
    pipelines_by_ref_url_spec, pipelines_by_sha_url_spec,
};
use crate::vars::{Entry, VarMap};

verus! {

/// Where the pipeline is looked for: the latest pipeline of a branch, or of a commit.
#[derive(Debug)]
pub enum RefTarget {
    Branch(String),
    Commit(String),
}

/// What is done with the job once it is found.
#[derive(Debug)]
pub enum Goal {
    /// Download its artifacts archive.
    DownloadArtifacts,
    /// Start it again: play it when manual, retry it otherwise.
    Trigger { variables: VarMap, inputs: VarMap },
}

/// A command that works on one job of the latest pipeline of a branch or commit.
#[derive(Debug)]
pub struct JobPlan {
    pub api_url: String,
    pub project: String,
    pub target: RefTarget,
    pub job_name: String,
    pub goal: Goal,
}

/// Where the pipeline is looked for, as plain values.
pub enum TargetView {
    Branch(Seq<char>),
    Commit(Seq<char>),
}

/// What is done with the job, as plain values.
pub enum GoalView {
    DownloadArtifacts,
    Trigger { variables: Seq<Entry>, inputs: Seq<Entry> },
}

/// A job command as plain values.
pub struct JobPlanView {
    pub api_url: Seq<char>,
    pub project: Seq<char>,
    pub target: TargetView,
    pub job_name: Seq<char>,
    pub goal: GoalView,
}

impl View for RefTarget {
    type V = TargetView;

    open spec fn view(&self) -> TargetView {
        match self {
            RefTarget::Branch(b) => TargetView::Branch(b@),
            RefTarget::Commit(c) => TargetView::Commit(c@),
        }
    }
}

impl View for Goal {
    type V = GoalView;

    open spec fn view(&self) -> GoalView {
        match self {
            Goal::DownloadArtifacts => GoalView::DownloadArtifacts,
            Goal::Trigger { variables, inputs } => GoalView::Trigger {
                variables: variables@,
                inputs: inputs@,
            },
        }
    }
}

impl View for JobPlan {
    type V = JobPlanView;

    open spec fn view(&self) -> JobPlanView {
        JobPlanView {
            api_url: self.api_url@,
            project: self.project@,
            target: self.target@,
            job_name: self.job_name@,
            goal: self.goal@,
        }
    }
}

/// How far a command has come.
#[derive(Debug)]
pub enum Stage {
    /// Nothing sent yet.
    Start,
    /// The pipeline list was asked for.
    AwaitPipelines,
    /// The jobs of this pipeline were asked for.
    AwaitJobs { pipeline_id: u64 },
    /// The artifacts of this job are being downloaded.
    AwaitArtifacts { job: JobDetail },
    /// This job was asked to play or retry through the REST API.
    AwaitTriggered { job: JobDetail },
    /// This job was asked to retry through the GraphQL API.
    AwaitRetryReply { job: JobDetail },
    /// Done: the job whose artifacts were saved, or the job that was started.
    Finished { job_id: u64 },
    /// Stopped with an error.
    Failed { error: CliError },
}

/// A stage as plain values.
pub enum StageView {
    Start,
    AwaitPipelines,
    AwaitJobs { pipeline_id: u64 },
    AwaitArtifacts { job: JobView },
    AwaitTriggered { job: JobView },
    AwaitRetryReply { job: JobView },
    Finished { job_id: u64 },
    Failed { error: CliErrorView },
}

impl View for Stage {
    type V = StageView;

    open spec fn view(&self) -> StageView {
        match self {
            Stage::Start => StageView::Start,
            Stage::AwaitPipelines => StageView::AwaitPipelines,
            Stage::AwaitJobs { pipeline_id } => StageView::AwaitJobs { pipeline_id: *pipeline_id },
            Stage::AwaitArtifacts { job } => StageView::AwaitArtifacts { job: job@ },
            Stage::AwaitTriggered { job } => StageView::AwaitTriggered { job: job@ },
            Stage::AwaitRetryReply { job } => StageView::AwaitRetryReply { job: job@ },
            Stage::Finished { job_id } => StageView::Finished { job_id: *job_id },
            Stage::Failed { error } => StageView::Failed { error: error@ },
        }
    }
}

/// What the program reports after doing what the last step asked.
#[derive(Debug)]
pub enum Event {
    /// The command starts.
    Begin,
    /// The pipeline list arrived.
    Pipelines { pipelines: Vec<Pipeline> },
    /// The job list arrived.
    Jobs { jobs: Vec<JobDetail> },
    /// The artifacts archive was saved.
    ArtifactsSaved,
    /// A play or retry request started a job.
    Triggered { job: TriggeredJob },
    /// The GraphQL retry mutation answered: the messages of its errors, if any,
    /// and the global ID of the new job, if there was data.
    RetryReply { errors: Option<Vec<String>>, job_gid: Option<String> },
    /// The request failed.
    RequestFailed { error: CliError },
}

/// The URL of the pipeline list the plan looks in.
pub open spec fn pipelines_url_for(plan: JobPlanView) -> Seq<char> {
    match plan.target {
        TargetView::Branch(b) => pipelines_by_ref_url_spec(plan.api_url, plan.project, b),
        TargetView::Commit(c) => pipelines_by_sha_url_spec(plan.api_url, plan.project, c),
    }
}

/// The error when the branch or commit has no pipeline.
pub open spec fn no_pipeline_error(target: TargetView) -> CliErrorView {
    match target {
        TargetView::Branch(b) => CliErrorView::NoPipelineForRef { git_ref: b },
        TargetView::Commit(c) => CliErrorView::NoPipelineForCommit { sha: c },
    }
}

/// What is done with the job that was found: its artifacts are downloaded; or,
/// to start it, a running or pending job is refused, a manual job is played,
/// a job is retried through GraphQL when there are variables, and through the
/// REST API otherwise (with a body only when there are inputs).
pub open spec fn after_job_found(plan: JobPlanView, job: JobView) -> (StageView, Option<RequestView>) {
    let api = plan.api_url;
    let project = plan.project;
    match plan.goal {
        GoalView::DownloadArtifacts => (
            StageView::AwaitArtifacts { job },
            Some(RequestView::Get { url: job_url_spec(api, project, job.id, "/artifacts"@) }),
        ),
        GoalView::Trigger { variables, inputs } => {
            if is_busy_status(job.status) {
                (StageView::Failed { error: CliErrorView::JobBusy { status: job.status } }, None)
            } else if job.status == "manual"@ {
                (
                    StageView::AwaitTriggered { job },
                    Some(
                        RequestView::PostJson {
                            url: job_url_spec(api, project, job.id, "/play"@),
                            body: play_body_spec(variables, inputs),
                        },
                    ),
                )
            } else if variables.len() > 0 {
                (
                    StageView::AwaitRetryReply { job },
                    Some(
                        RequestView::PostJson {
                            url: graphql_url_spec(api),
                            body: retry_request_spec(job.id, variables, inputs),
                        },
                    ),
                )
            } else if inputs.len() == 0 {
                (
                    StageView::AwaitTriggered { job },
                    Some(RequestView::Post { url: job_url_spec(api, project, job.id, "/retry"@) }),
                )
            } else {
                (
                    StageView::AwaitTriggered { job },
                    Some(
                        RequestView::PostJson {
                            url: job_url_spec(api, project, job.id, "/retry"@),
                            body: retry_body_spec(inputs),
                        },
                    ),
                )
            }
        },
    }
}

/// The stage after the GraphQL retry mutation answered.
pub open spec fn after_retry_reply(errors: Option<Vec<String>>, job_gid: Option<String>) -> StageView {
    match errors {
        Some(ms) => StageView::Failed { error: CliErrorView::GraphQl { messages: views(ms@) } },
        None => match job_gid {
            None => StageView::Failed { error: CliErrorView::GraphQlMissingData },
            Some(g) => match parse_gid_spec(g@) {
                Some(n) => StageView::Finished { job_id: n },
                None => StageView::Failed { error: CliErrorView::InvalidJobIdInGid },
            },
        },
    }
}

/// One step of a job command: the next stage and the request to send next.
/// A failed request stops the command with its error; an event that the stage
/// does not wait for changes nothing; a finished or failed command stays so.
pub open spec fn next_step(plan: JobPlanView, stage: StageView, event: Event) -> (StageView, Option<RequestView>) {
    match (stage, event) {
        (StageView::Start, Event::Begin) => (
            StageView::AwaitPipelines,
            Some(RequestView::Get { url: pipelines_url_for(plan) }),
        ),
        (StageView::AwaitPipelines, Event::Pipelines { pipelines }) => {
            if pipelines@.len() == 0 {
                (StageView::Failed { error: no_pipeline_error(plan.target) }, None)
            } else {
                let id = pipelines@[0].id;
                (
                    StageView::AwaitJobs { pipeline_id: id },
                    Some(
                        RequestView::Get {
                            url: pipeline_jobs_url_spec(plan.api_url, plan.project, id),
                        },
                    ),
                )
            }
        },
        (StageView::AwaitJobs { pipeline_id }, Event::Jobs { jobs }) => {
            if has_job_named(jobs@, plan.job_name) {
                let i = choose|i: int| is_first_job_named(jobs@, plan.job_name, i);
                after_job_found(plan, jobs@[i]@)
            } else {
                (
                    StageView::Failed {
                        error: CliErrorView::JobNotFound { name: plan.job_name, pipeline_id },
                    },
                    None,
                )
            }
        },
        (StageView::AwaitArtifacts { job }, Event::ArtifactsSaved) => (
            StageView::Finished { job_id: job.id },
            None,
        ),
        (StageView::AwaitTriggered { job: _ }, Event::Triggered { job }) => (
            StageView::Finished { job_id: job.id },
            None,
        ),
        (StageView::AwaitRetryReply { job: _ }, Event::RetryReply { errors, job_gid }) => (
            after_retry_reply(errors, job_gid),
            None,
        ),
        (StageView::Finished { job_id }, _) => (stage, None),
        (StageView::Failed { error }, _) => (stage, None),
        (StageView::Start, _) => (stage, None),
        (_, Event::RequestFailed { error }) => (StageView::Failed { error: error@ }, None),
        _ => (stage, None),
    }
}

/// Chooses the branch or the commit; exactly one must be given.
pub fn select_ref(branch: Option<&str>, commit: Option<&str>) -> (r: Result<RefTarget, CliError>)
    ensures
        match (branch, commit) {
            (Some(b), None) => r matches Ok(RefTarget::Branch(x)) && x@ == b@,
            (None, Some(c)) => r matches Ok(RefTarget::Commit(x)) && x@ == c@,
            _ => r == Err::<RefTarget, CliError>(CliError::AmbiguousRef),
        },
{
    match (branch, commit) {
        (Some(b), None) => Ok(RefTarget::Branch(String::from_str(b))),
        (None, Some(c)) => Ok(RefTarget::Commit(String::from_str(c))),
        _ => Err(CliError::AmbiguousRef),
    }
}

fn pipelines_request(plan: &JobPlan) -> (r: HttpRequest)
    ensures
        r@ == (RequestView::Get { url: pipelines_url_for(plan@) }),
{
    match &plan.target {
        RefTarget::Branch(b) => get_pipeline_by_ref(
            plan.api_url.as_str(),
            plan.project.as_str(),
            b.as_str(),
        ),
        RefTarget::Commit(c) => get_pipeline_by_sha(
            plan.api_url.as_str(),
            plan.project.as_str(),
            c.as_str(),
        ),
    }
}

fn no_pipeline(target: &RefTarget) -> (e: CliError)
    ensures
        e@ == no_pipeline_error(target@),
{
    match target {
        RefTarget::Branch(b) => CliError::NoPipelineForRef { git_ref: b.clone() },
        RefTarget::Commit(c) => CliError::NoPipelineForCommit { sha: c.clone() },
    }
}

fn act_on_job(plan: &JobPlan, job: JobDetail) -> (r: (Stage, Option<HttpRequest>))
    ensures
        (r.0@, request_view(r.1)) == after_job_found(plan@, job@),
{
    let api = plan.api_url.as_str();
    let project = plan.project.as_str();
    match &plan.goal {
        Goal::DownloadArtifacts => {
            let request = download_artifacts(api, project, job.id);
            (Stage::AwaitArtifacts { job }, Some(request))
        },
        Goal::Trigger { variables, inputs } => {
            match check_job_status(job.status.as_str()) {
                Err(error) => {
                    return (Stage::Failed { error }, None);
                },
                Ok(()) => {},
            }
            if text_eq(job.status.as_str(), "manual") {
                let request = play_job(api, project, job.id, variables, inputs);
                (Stage::AwaitTriggered { job }, Some(request))
            } else if !variables.is_empty() {
                let request = retry_job_with_variables(api, job.id, variables, inputs);
                (Stage::AwaitRetryReply { job }, Some(request))
            } else {
                let request = retry_job(api, project, job.id, inputs);
                (Stage::AwaitTriggered { job }, Some(request))
            }
        },
    }
}

/// Decides the next stage of a job command and the request to send next.
pub fn step(plan: &JobPlan, stage: Stage, event: Event) -> (r: (Stage, Option<HttpRequest>))
    ensures
        (r.0@, request_view(r.1)) == next_step(plan@, stage@, event),
{
    match stage {
        Stage::Finished { job_id } => (Stage::Finished { job_id }, None),
        Stage::Failed { error } => (Stage::Failed { error }, None),
        Stage::Start => match event {
            Event::Begin => (Stage::AwaitPipelines, Some(pipelines_request(plan))),
            _ => (Stage::Start, None),
        },
        Stage::AwaitPipelines => match event {
            Event::Pipelines { pipelines } => {
                if pipelines.len() == 0 {
                    (Stage::Failed { error: no_pipeline(&plan.target) }, None)
                } else {
                    let id = pipelines[0].id;
                    let url = pipeline_jobs_url(plan.api_url.as_str(), plan.project.as_str(), id);
                    (Stage::AwaitJobs { pipeline_id: id }, Some(HttpRequest::Get { url }))
                }
            },
            Event::RequestFailed { error } => (Stage::Failed { error }, None),
            _ => (Stage::AwaitPipelines, None),
        },
        Stage::AwaitJobs { pipeline_id } => match event {
            Event::Jobs { jobs } => match find_job(&jobs, plan.job_name.as_str(), pipeline_id) {
                Ok(job) => {
                    proof {
                        let k = choose|i: int|
                            is_first_job_named(jobs@, plan.job_name@, i) && job.id == jobs@[i].id
                                && job.name@ == jobs@[i].name@ && job.status@ == jobs@[i].status@;
                        assert(has_job_named(jobs@, plan.job_name@));
                        let c = choose|i: int| is_first_job_named(jobs@, plan.job_name@, i);
                        if c < k {
                            assert(jobs@[c].name@ == plan.job_name@);
                        }
                        if k < c {
                            assert(jobs@[k].name@ == plan.job_name@);
                        }
                        assert(job@ == jobs@[c]@);
                    }
                    act_on_job(plan, job)
                },
                Err(error) => (Stage::Failed { error }, None),
            },
            Event::RequestFailed { error } => (Stage::Failed { error }, None),
            _ => (Stage::AwaitJobs { pipeline_id }, None),
        },
        Stage::AwaitArtifacts { job } => match event {
            Event::ArtifactsSaved => (Stage::Finished { job_id: job.id }, None),
            Event::RequestFailed { error } => (Stage::Failed { error }, None),
            _ => (Stage::AwaitArtifacts { job }, None),
        },
        Stage::AwaitTriggered { job } => match event {
            Event::Triggered { job: started } => (Stage::Finished { job_id: started.id }, None),
            Event::RequestFailed { error } => (Stage::Failed { error }, None),
            _ => (Stage::AwaitTriggered { job }, None),
        },
        Stage::AwaitRetryReply { job } => match event {
            Event::RetryReply { errors, job_gid } => match interpret_retry_reply(errors, job_gid) {
                Ok(started) => (Stage::Finished { job_id: started.id }, None),
                Err(error) => (Stage::Failed { error }, None),
            },
            Event::RequestFailed { error } => (Stage::Failed { error }, None),
            _ => (Stage::AwaitRetryReply { job }, None),
        },
    }
}

/// How far a stage is along a command: requests only move a command forward.
pub open spec fn stage_rank(stage: StageView) -> int {
    match stage {
        StageView::Start => 0,
        StageView::AwaitPipelines => 1,
        StageView::AwaitJobs { .. } => 2,
        StageView::AwaitArtifacts { .. } => 3,
        StageView::AwaitTriggered { .. } => 3,
        StageView::AwaitRetryReply { .. } => 3,
        StageView::Finished { .. } => 4,
        StageView::Failed { .. } => 4,
    }
}

/// Whether a command has ended.
pub open spec fn is_terminal(stage: StageView) -> bool {
    stage is Finished || stage is Failed
}

/// A job command never goes back, and every request it sends moves it forward;
/// so it sends at most three requests. Once finished or failed it stays so and
/// sends nothing more.
pub proof fn lemma_job_command_progress(plan: JobPlanView, stage: StageView, event: Event)
    ensures
        stage_rank(next_step(plan, stage, event).0) >= stage_rank(stage),
        next_step(plan, stage, event).1 is Some ==> stage_rank(next_step(plan, stage, event).0)
            > stage_rank(stage),
        is_terminal(stage) ==> next_step(plan, stage, event) == (stage, None::<RequestView>),
{
    match (stage, event) {
        (StageView::AwaitJobs { pipeline_id }, Event::Jobs { jobs }) => {
            if has_job_named(jobs@, plan.job_name) {
                let i = choose|i: int| is_first_job_named(jobs@, plan.job_name, i);
                let job = jobs@[i]@;
                assert(stage_rank(after_job_found(plan, job).0) == 3 || stage_rank(
                    after_job_found(plan, job).0,
                ) == 4);
            }
        },
        (StageView::AwaitRetryReply { job: _ }, Event::RetryReply { errors, job_gid }) => {
            assert(is_terminal(after_retry_reply(errors, job_gid)));
        },
        _ => {},
    }
}

/// A request that fails stops a command under way with that request's error.
pub proof fn lemma_failed_request_stops(plan: JobPlanView, stage: StageView, error: CliError)
    requires
        !is_terminal(stage),
        !(stage is Start),
    ensures
        next_step(plan, stage, Event::RequestFailed { error }) == (
            StageView::Failed { error: error@ },
            None::<RequestView>,
        ),
{
}

/// The job that a job command acts on is the first job of the pipeline with
/// the requested name.
pub open spec fn found_job(plan: JobPlanView, jobs: Vec<JobDetail>) -> JobView {
    jobs@[choose|i: int| is_first_job_named(jobs@, plan.job_name, i)]@
}

/// Starting a job never starts one that is running or pending: the command
/// fails with `JobBusy` and sends nothing.
pub proof fn lemma_busy_job_never_started(plan: JobPlanView, pipeline_id: u64, jobs: Vec<JobDetail>)
    requires
        plan.goal is Trigger,
        has_job_named(jobs@, plan.job_name),
        is_busy_status(found_job(plan, jobs).status),
    ensures
        next_step(plan, StageView::AwaitJobs { pipeline_id }, Event::Jobs { jobs }) == (
            StageView::Failed {
                error: CliErrorView::JobBusy { status: found_job(plan, jobs).status },
            },
            None::<RequestView>,
        ),
{
}

/// A manual job is played: one `POST /jobs/:id/play` with the variables and inputs.
pub proof fn lemma_manual_job_is_played(plan: JobPlanView, pipeline_id: u64, jobs: Vec<JobDetail>)
    requires
        plan.goal is Trigger,
        has_job_named(jobs@, plan.job_name),
        found_job(plan, jobs).status == "manual"@,
    ensures
        ({
            let job = found_job(plan, jobs);
            let (variables, inputs) = match plan.goal {
                GoalView::Trigger { variables, inputs } => (variables, inputs),
                GoalView::DownloadArtifacts => (Seq::empty(), Seq::empty()),
            };
            next_step(plan, StageView::AwaitJobs { pipeline_id }, Event::Jobs { jobs }) == (
                StageView::AwaitTriggered { job },
                Some(
                    RequestView::PostJson {
                        url: job_url_spec(plan.api_url, plan.project, job.id, "/play"@),
                        body: play_body_spec(variables, inputs),
                    },
                ),
            )
        }),
{
    reveal_strlit("manual");
    reveal_strlit("running");
    reveal_strlit("pending");
    assert("manual"@.len() != "running"@.len());
    assert("manual"@.len() != "pending"@.len());
    assert(!is_busy_status(found_job(plan, jobs).status));
}

/// Any other job that is not running or pending (failed, canceled, skipped,
/// success, ...) is retried: through GraphQL when variables are given, and
/// with `POST /jobs/:id/retry` otherwise.
pub proof fn lemma_other_job_is_retried(plan: JobPlanView, pipeline_id: u64, jobs: Vec<JobDetail>)
    requires
        plan.goal is Trigger,
        has_job_named(jobs@, plan.job_name),
        found_job(plan, jobs).status != "manual"@,
        !is_busy_status(found_job(plan, jobs).status),
    ensures
        ({
            let job = found_job(plan, jobs);
            let (variables, inputs) = match plan.goal {
                GoalView::Trigger { variables, inputs } => (variables, inputs),
                GoalView::DownloadArtifacts => (Seq::empty(), Seq::empty()),
            };
            let (next, request) = next_step(
                plan,
                StageView::AwaitJobs { pipeline_id },
                Event::Jobs { jobs },
            );
            &&& variables.len() > 0 ==> next == StageView::AwaitRetryReply { job } && request
                == Some(
                RequestView::PostJson {
                    url: graphql_url_spec(plan.api_url),
                    body: retry_request_spec(job.id, variables, inputs),
                },
            )
            &&& variables.len() == 0 ==> next == StageView::AwaitTriggered { job } && (request
                matches Some(RequestView::Post { url }) || request matches Some(
                RequestView::PostJson { url, body: _ },
            )) && request_url(request) == job_url_spec(
                plan.api_url,
                plan.project,
                job.id,
                "/retry"@,
            )
        }),
{
}

/// The URL of a request, if there is one.
pub open spec fn request_url(r: Option<RequestView>) -> Seq<char> {
    match r {
        Some(RequestView::Get { url }) => url,
        Some(RequestView::Post { url }) => url,
        Some(RequestView::PostJson { url, body: _ }) => url,
        Some(RequestView::Put { url, data: _ }) => url,
        Some(RequestView::Delete { url }) => url,
        None => Seq::empty(),
    }
}

/// A job command first asks for the latest pipeline of its branch (by `ref`)
/// or commit (by `sha`); it then asks for the jobs of the first pipeline
/// listed, and fails naming the branch or commit when none is listed.
pub proof fn lemma_latest_pipeline_is_used(plan: JobPlanView, pipelines: Vec<Pipeline>)
    ensures
        next_step(plan, StageView::Start, Event::Begin) == (
            StageView::AwaitPipelines,
            Some(
                RequestView::Get {
                    url: match plan.target {
                        TargetView::Branch(b) => pipelines_by_ref_url_spec(plan.api_url, plan.project, b),
                        TargetView::Commit(c) => pipelines_by_sha_url_spec(plan.api_url, plan.project, c),
                    },
                },
            ),
        ),
        pipelines@.len() == 0 ==> next_step(
            plan,
            StageView::AwaitPipelines,
            Event::Pipelines { pipelines },
        ) == (
            StageView::Failed {
                error: match plan.target {
                    TargetView::Branch(b) => CliErrorView::NoPipelineForRef { git_ref: b },
                    TargetView::Commit(c) => CliErrorView::NoPipelineForCommit { sha: c },
                },
            },
            None::<RequestView>,
        ),
        pipelines@.len() > 0 ==> next_step(
            plan,
            StageView::AwaitPipelines,
            Event::Pipelines { pipelines },
        ) == (
            StageView::AwaitJobs { pipeline_id: pipelines@[0].id },
            Some(
                RequestView::Get {
                    url: pipeline_jobs_url_spec(plan.api_url, plan.project, pipelines@[0].id),
                },
            ),
        ),
{
}

/// A pipeline without a job of the requested name stops the command with an
/// error naming the job and the pipeline, and sends nothing.
pub proof fn lemma_missing_job_is_reported(plan: JobPlanView, pipeline_id: u64, jobs: Vec<JobDetail>)
    requires
        forall|i: int| 0 <= i < jobs@.len() ==> #[trigger] jobs@[i].name@ != plan.job_name,
    ensures
        next_step(plan, StageView::AwaitJobs { pipeline_id }, Event::Jobs { jobs }) == (
            StageView::Failed { error: CliErrorView::JobNotFound { name: plan.job_name, pipeline_id } },
            None::<RequestView>,
        ),
{
}

/// The job acted on is the first of the pipeline's jobs with the requested name.
pub proof fn lemma_first_job_with_the_name(plan: JobPlanView, jobs: Vec<JobDetail>, i: int)
    requires
        0 <= i < jobs@.len(),
        jobs@[i].name@ == plan.job_name,
        forall|j: int| 0 <= j < i ==> #[trigger] jobs@[j].name@ != plan.job_name,
    ensures
        has_job_named(jobs@, plan.job_name),
        found_job(plan, jobs) == jobs@[i]@,
{
    assert(is_first_job_named(jobs@, plan.job_name, i));
    let c = choose|k: int| is_first_job_named(jobs@, plan.job_name, k);
    if c < i {
        assert(jobs@[c].name@ == plan.job_name);
    }
    if i < c {
        assert(jobs@[i].name@ != plan.job_name);
    }
}

/// Only a running or a pending job is refused; a manual, failed, canceled,
/// skipped or successful job may be started.
pub proof fn lemma_only_running_or_pending_is_busy(status: Seq<char>)
    ensures
        is_busy_status(status) <==> (status == "running"@ || status == "pending"@),
        !is_busy_status("manual"@),
        !is_busy_status("failed"@),
        !is_busy_status("canceled"@),
        !is_busy_status("skipped"@),
        !is_busy_status("success"@),
{
    reveal_strlit("running");
    reveal_strlit("pending");
    reveal_strlit("manual");
    reveal_strlit("failed");
    reveal_strlit("canceled");
    reveal_strlit("skipped");
    reveal_strlit("success");
    assert("manual"@[0] != "running"@[0] && "manual"@[0] != "pending"@[0]);
    assert("failed"@[0] != "running"@[0] && "failed"@[0] != "pending"@[0]);
    assert("canceled"@[0] != "running"@[0] && "canceled"@[0] != "pending"@[0]);
    assert("skipped"@[0] != "running"@[0] && "skipped"@[0] != "pending"@[0]);
    assert("success"@[0] != "running"@[0] && "success"@[0] != "pending"@[0]);
}

} // verus!
