//! The commands of the client, as plain values, and what each asks for.

use vstd::prelude::*;
use crate::error::CliError;
use crate::flow::{
    Event, Goal, GoalView, JobPlan, JobPlanView, RefTarget, StageView, TargetView, next_step, select_ref,
};
use crate::requests::RequestView;
use crate::url::{pipelines_by_ref_url_spec, pipelines_by_sha_url_spec};
use crate::text::views;
use crate::vars::{Entry, parse_variables, parse_variables_spec};

verus! {

/// Connection settings given on the command line (with their environment fallbacks).
pub struct ClientArgs {
    pub api_url: Option<String>,
    pub use_private_token: bool,
    pub private_token: Option<String>,
    pub job_token: Option<String>,
    pub insecure: bool,
    pub log_level: String,
}

/// A whole command line.
pub struct Cli {
    pub client: ClientArgs,
    pub command: Commands,
}

/// The command groups.
#[allow(inconsistent_fields)]
pub enum Commands {
    /// Download CI/CD artifacts.
    Artifacts { action: ArtifactsAction },
    /// Manage the package registry.
    Package { action: PackageAction },
    /// Manage CI/CD pipelines.
    Pipeline { action: PipelineAction },
}

/// Artifact commands.
pub enum ArtifactsAction {
    /// Download the artifacts of a job as a zip archive, and extract it on request
    /// (`output` is then the destination directory).
    Download {
        project: String,
        branch: Option<String>,
        commit: Option<String>,
        job: String,
        output: Option<String>,
        extract: bool,
    },
}

/// Package registry commands.
#[allow(inconsistent_fields)]
pub enum PackageAction {
    /// Upload a file as a generic package.
    Upload { project: String, name: String, version: String, file: String },
    /// Download one file of a generic package.
    Download { project: String, name: String, version: String, file: String, output: String },
    /// Delete a package.
    Delete { project: String, id: u64 },
    /// List the packages of a project, optionally of one name.
    List { project: String, name: Option<String> },
}

/// Pipeline commands.
pub enum PipelineAction {
    /// Start a job of the latest pipeline of a branch or commit again.
    Run {
        project: String,
        branch: Option<String>,
        commit: Option<String>,
        job: String,
        variables: Vec<String>,
        inputs: Vec<String>,
    },
}

/// The view of an optional owned text.
pub open spec fn opt_string_view(s: Option<String>) -> Option<Seq<char>> {
    match s {
        Some(x) => Some(x@),
        None => None,
    }
}

/// Whether `target` is the branch or commit chosen by the two options.
pub open spec fn target_matches(target: RefTarget, branch: Option<String>, commit: Option<String>) -> bool {
    match (opt_string_view(branch), opt_string_view(commit)) {
        (Some(b), None) => target matches RefTarget::Branch(x) && x@ == b,
        (None, Some(c)) => target matches RefTarget::Commit(x) && x@ == c,
        _ => false,
    }
}

/// Whether exactly one of the two options is given.
pub open spec fn exactly_one(branch: Option<String>, commit: Option<String>) -> bool {
    branch is Some != commit is Some
}

fn as_opt_str(s: &Option<String>) -> (r: Option<&str>)
    ensures
        match r {
            Some(x) => s matches Some(y) && x@ == y@,
            None => s is None,
        },
{
    match s {
        Some(x) => Some(x.as_str()),
        None => None,
    }
}

/// What an artifact download asks for: the job of the latest pipeline of the
/// branch or commit, whose artifacts are downloaded.
pub fn artifacts_plan(api_url: &str, action: &ArtifactsAction) -> (r: Result<JobPlan, CliError>)
    ensures
        match *action {
            ArtifactsAction::Download { project, branch, commit, job, output: _, extract: _ } => match r {
                Ok(plan) => exactly_one(branch, commit) && plan.api_url@ == api_url@ && plan.project@
                    == project@ && plan.job_name@ == job@ && target_matches(plan.target, branch, commit)
                    && plan.goal is DownloadArtifacts,
                Err(e) => !exactly_one(branch, commit) && e == CliError::AmbiguousRef,
            },
        },
{
    match action {
        ArtifactsAction::Download { project, branch, commit, job, output: _, extract: _ } => {
            let target = select_ref(as_opt_str(branch), as_opt_str(commit))?;
            Ok(
                JobPlan {
                    api_url: String::from_str(api_url),
                    project: project.clone(),
                    target,
                    job_name: job.clone(),
                    goal: Goal::DownloadArtifacts,
                },
            )
        },
    }
}

/// What the plan of a pipeline run holds: both lists of items read, exactly one
/// of branch and commit, and the fields of the command with the variables and
/// inputs as read.
pub open spec fn run_plan_ok(api_url: Seq<char>, action: PipelineAction, plan: JobPlan) -> bool {
    match action {
        PipelineAction::Run { project, branch, commit, job, variables, inputs } => {
            let vs = parse_variables_spec(views(variables@));
            let is = parse_variables_spec(views(inputs@));
            &&& vs is Ok
            &&& is is Ok
            &&& exactly_one(branch, commit)
            &&& plan.api_url@ == api_url
            &&& plan.project@ == project@
            &&& plan.job_name@ == job@
            &&& target_matches(plan.target, branch, commit)
            &&& plan.goal matches Goal::Trigger { variables: pv, inputs: pi }
            &&& pv@ == vs->Ok_0
            &&& pi@ == is->Ok_0
        },
    }
}

/// The command that triggers `job_name` in the latest pipeline of `git_ref`
/// (a branch when `is_branch`, a commit otherwise) with these variables and inputs.
pub open spec fn trigger_job_plan(
    api_url: Seq<char>,
    project: Seq<char>,
    git_ref: Seq<char>,
    is_branch: bool,
    job_name: Seq<char>,
    variables: Seq<Entry>,
    inputs: Seq<Entry>,
) -> JobPlanView {
    JobPlanView {
        api_url,
        project,
        target: if is_branch {
            TargetView::Branch(git_ref)
        } else {
            TargetView::Commit(git_ref)
        },
        job_name,
        goal: GoalView::Trigger { variables, inputs },
    }
}

/// A pipeline run triggers the job of the chosen branch or commit with the
/// variables and inputs as read: its plan is that trigger command, so every
/// step sends the requests of that command; the first asks for the latest
/// pipeline of that branch (by `ref`) or commit (by `sha`).
pub proof fn lemma_pipeline_run_triggers(api_url: Seq<char>, action: PipelineAction, plan: JobPlan)
    requires
        run_plan_ok(api_url, action, plan),
    ensures
        match action {
            PipelineAction::Run { project, branch, commit, job, variables, inputs } => {
                let vs = parse_variables_spec(views(variables@))->Ok_0;
                let is = parse_variables_spec(views(inputs@))->Ok_0;
                &&& branch matches Some(b) ==> plan@ == trigger_job_plan(api_url, project@, b@, true, job@, vs, is)
                    && next_step(plan@, StageView::Start, Event::Begin) == (
                        StageView::AwaitPipelines,
                        Some(RequestView::Get { url: pipelines_by_ref_url_spec(api_url, project@, b@) }),
                    )
                &&& commit matches Some(c) ==> plan@ == trigger_job_plan(api_url, project@, c@, false, job@, vs, is)
                    && next_step(plan@, StageView::Start, Event::Begin) == (
                        StageView::AwaitPipelines,
                        Some(RequestView::Get { url: pipelines_by_sha_url_spec(api_url, project@, c@) }),
                    )
            },
        },
{
}

/// What a pipeline run asks for: the variables and then the inputs are read
/// (the first malformed item is the error), then exactly one of branch and
/// commit must be given.
pub fn pipeline_plan(api_url: &str, action: &PipelineAction) -> (r: Result<JobPlan, CliError>)
    ensures
        match *action {
            PipelineAction::Run { project, branch, commit, job, variables, inputs } => {
                let vs = parse_variables_spec(views(variables@));
                let is = parse_variables_spec(views(inputs@));
                match r {
                    Ok(plan) => run_plan_ok(api_url@, *action, plan),
                    Err(CliError::InvalidVariable { item }) => (vs matches Err(bad) && item@ == bad) || (
                    vs is Ok && (is matches Err(bad) && item@ == bad)),
                    Err(e) => vs is Ok && is is Ok && !exactly_one(branch, commit) && e
                        == CliError::AmbiguousRef,
                }
            },
        },
{
    match action {
        PipelineAction::Run { project, branch, commit, job, variables, inputs } => {
            let vars = parse_variables(variables)?;
            let inps = parse_variables(inputs)?;
            let target = select_ref(as_opt_str(branch), as_opt_str(commit))?;
            Ok(
                JobPlan {
                    api_url: String::from_str(api_url),
                    project: project.clone(),
                    target,
                    job_name: job.clone(),
                    goal: Goal::Trigger { variables: vars, inputs: inps },
                },
            )
        },
    }
}

} // verus!
