use gitlab_cli::cli::{artifacts_plan, pipeline_plan, ArtifactsAction, PipelineAction};
use gitlab_cli::error::CliError;
use gitlab_cli::flow::{select_ref, step, Event, Goal, JobPlan, RefTarget, Stage};
use gitlab_cli::model::{JobDetail, Pipeline, TriggeredJob};
use gitlab_cli::packages::{upload_package, upload_step, UploadEvent, UploadStage};
use gitlab_cli::requests::{
    delete_package, download_package, list_package_files, list_packages, retry_job, HttpRequest,
};
use gitlab_cli::vars::VarMap;

const API: &str = "https://gitlab.com/api/v4";

fn job(id: u64, name: &str, status: &str) -> JobDetail {
    JobDetail { id, name: name.to_string(), status: status.to_string() }
}

fn vars(pairs: &[(&str, &str)]) -> VarMap {
    let mut m = VarMap::new();
    for (k, v) in pairs {
        m.insert(k.to_string(), v.to_string());
    }
    m
}

fn plan(target: RefTarget, goal: Goal) -> JobPlan {
    JobPlan { api_url: API.to_string(), project: "g/p".to_string(), target, job_name: "deploy".to_string(), goal }
}

fn trigger(variables: VarMap, inputs: VarMap) -> Goal {
    Goal::Trigger { variables, inputs }
}

fn url_of(r: &Option<HttpRequest>) -> String {
    match r {
        Some(HttpRequest::Get { url }) | Some(HttpRequest::Post { url }) | Some(HttpRequest::Delete { url }) => url.clone(),
        Some(HttpRequest::PostJson { url, .. }) | Some(HttpRequest::Put { url, .. }) => url.clone(),
        None => String::new(),
    }
}

/// Runs a job command up to the job list, returning the stage and request after it.
fn up_to_jobs(p: &JobPlan, jobs: Vec<JobDetail>) -> (Stage, Option<HttpRequest>) {
    let (s, r) = step(p, Stage::Start, Event::Begin);
    assert!(matches!(s, Stage::AwaitPipelines));
    assert!(matches!(r, Some(HttpRequest::Get { .. })));
    let (s, r) = step(p, s, Event::Pipelines { pipelines: vec![Pipeline { id: 500 }, Pipeline { id: 400 }] });
    assert!(matches!(s, Stage::AwaitJobs { pipeline_id: 500 }));
    assert_eq!(url_of(&r), "https://gitlab.com/api/v4/projects/g%2Fp/pipelines/500/jobs?per_page=100");
    step(p, s, Event::Jobs { jobs })
}

#[test]
fn artifacts_download_flow() {
    let p = plan(RefTarget::Branch("main".to_string()), Goal::DownloadArtifacts);
    let (s, r) = step(&p, Stage::Start, Event::Begin);
    assert_eq!(
        url_of(&r),
        "https://gitlab.com/api/v4/projects/g%2Fp/pipelines?ref=main&per_page=1&order_by=id&sort=desc"
    );
    let (s, _) = step(&p, s, Event::Pipelines { pipelines: vec![Pipeline { id: 5 }] });
    let (s, r) = step(&p, s, Event::Jobs { jobs: vec![job(70, "build", "success"), job(71, "deploy", "success")] });
    assert!(matches!(s, Stage::AwaitArtifacts { ref job } if job.id == 71));
    assert_eq!(url_of(&r), "https://gitlab.com/api/v4/projects/g%2Fp/jobs/71/artifacts");
    let (s, r) = step(&p, s, Event::ArtifactsSaved);
    assert!(matches!(s, Stage::Finished { job_id: 71 }));
    assert!(r.is_none());
}

#[test]
fn commit_pipeline_is_looked_up_by_sha() {
    let p = plan(RefTarget::Commit("abc123def456".to_string()), Goal::DownloadArtifacts);
    let (_, r) = step(&p, Stage::Start, Event::Begin);
    assert_eq!(
        url_of(&r),
        "https://gitlab.com/api/v4/projects/g%2Fp/pipelines?sha=abc123def456&per_page=1&order_by=id&sort=desc"
    );
}

#[test]
fn no_pipeline_errors() {
    let p = plan(RefTarget::Branch("main".to_string()), Goal::DownloadArtifacts);
    let (s, r) = step(&p, Stage::AwaitPipelines, Event::Pipelines { pipelines: vec![] });
    assert!(r.is_none());
    match s {
        Stage::Failed { error } => assert_eq!(error.message(), "No pipeline found for ref 'main'"),
        other => panic!("unexpected {:?}", other),
    }
    let p = plan(RefTarget::Commit("abc".to_string()), Goal::DownloadArtifacts);
    match step(&p, Stage::AwaitPipelines, Event::Pipelines { pipelines: vec![] }).0 {
        Stage::Failed { error } => assert_eq!(error.message(), "No pipeline found for commit 'abc'"),
        other => panic!("unexpected {:?}", other),
    }
}

#[test]
fn manual_job_is_played_law() {
    let p = plan(RefTarget::Branch("main".to_string()), trigger(vars(&[("FOO", "bar")]), vars(&[("environment", "staging")])));
    let (s, r) = up_to_jobs(&p, vec![job(10, "deploy", "manual")]);
    assert!(matches!(s, Stage::AwaitTriggered { ref job } if job.id == 10));
    match r {
        Some(HttpRequest::PostJson { url, body }) => {
            assert_eq!(url, "https://gitlab.com/api/v4/projects/g%2Fp/jobs/10/play");
            assert_eq!(
                body,
                "{\"job_variables_attributes\":[{\"key\":\"FOO\",\"value\":\"bar\"}],\"job_inputs\":{\"environment\":\"staging\"}}"
            );
        }
        other => panic!("unexpected {:?}", other),
    }
    let (s, r) = step(&p, s, Event::Triggered { job: TriggeredJob { id: 11 } });
    assert!(matches!(s, Stage::Finished { job_id: 11 }));
    assert!(r.is_none());
}

#[test]
fn busy_job_is_never_started_law() {
    for status in ["running", "pending"] {
        let p = plan(RefTarget::Branch("main".to_string()), trigger(VarMap::new(), VarMap::new()));
        let (s, r) = up_to_jobs(&p, vec![job(10, "deploy", status)]);
        assert!(r.is_none());
        match s {
            Stage::Failed { error } => assert_eq!(error, CliError::JobBusy { status: status.to_string() }),
            other => panic!("unexpected {:?}", other),
        }
    }
}

#[test]
fn finished_job_is_retried_law() {
    for status in ["failed", "canceled", "skipped", "success"] {
        let p = plan(RefTarget::Branch("main".to_string()), trigger(VarMap::new(), VarMap::new()));
        let (s, r) = up_to_jobs(&p, vec![job(10, "deploy", status)]);
        assert!(matches!(s, Stage::AwaitTriggered { .. }));
        match r {
            Some(HttpRequest::Post { url }) => assert_eq!(url, "https://gitlab.com/api/v4/projects/g%2Fp/jobs/10/retry"),
            other => panic!("unexpected {:?}", other),
        }
    }
}

#[test]
fn retry_with_inputs_sends_them() {
    let p = plan(RefTarget::Branch("main".to_string()), trigger(VarMap::new(), vars(&[("filter", "xml")])));
    let (_, r) = up_to_jobs(&p, vec![job(10, "deploy", "failed")]);
    match r {
        Some(HttpRequest::PostJson { url, body }) => {
            assert_eq!(url, "https://gitlab.com/api/v4/projects/g%2Fp/jobs/10/retry");
            assert_eq!(body, "{\"inputs\":{\"filter\":\"xml\"}}");
        }
        other => panic!("unexpected {:?}", other),
    }
}

#[test]
fn retry_with_variables_goes_through_graphql() {
    let p = plan(RefTarget::Branch("main".to_string()), trigger(vars(&[("FOO", "bar")]), VarMap::new()));
    let (s, r) = up_to_jobs(&p, vec![job(10, "deploy", "success")]);
    assert!(matches!(s, Stage::AwaitRetryReply { .. }));
    match r {
        Some(HttpRequest::PostJson { url, body }) => {
            assert_eq!(url, "https://gitlab.com/api/v4/../graphql");
            assert!(body.contains("\"id\":\"gid://gitlab/Ci::Build/10\""));
        }
        other => panic!("unexpected {:?}", other),
    }
    let (done, _) = step(&p, s, Event::RetryReply { errors: None, job_gid: Some("gid://gitlab/Ci::Build/12".to_string()) });
    assert!(matches!(done, Stage::Finished { job_id: 12 }));
}

#[test]
fn graphql_errors_stop_the_command() {
    let p = plan(RefTarget::Branch("main".to_string()), trigger(vars(&[("FOO", "bar")]), VarMap::new()));
    let stage = Stage::AwaitRetryReply { job: job(10, "deploy", "success") };
    match step(&p, stage, Event::RetryReply { errors: Some(vec!["denied".to_string()]), job_gid: None }).0 {
        Stage::Failed { error } => assert_eq!(error.message(), "GraphQL errors: denied"),
        other => panic!("unexpected {:?}", other),
    }
}

#[test]
fn missing_job_stops_the_command() {
    let p = plan(RefTarget::Branch("main".to_string()), Goal::DownloadArtifacts);
    match up_to_jobs(&p, vec![job(1, "build", "success")]).0 {
        Stage::Failed { error } => assert_eq!(error.message(), "Job 'deploy' not found in pipeline 500"),
        other => panic!("unexpected {:?}", other),
    }
}

#[test]
fn failed_request_stops_the_command_law() {
    let p = plan(RefTarget::Branch("main".to_string()), Goal::DownloadArtifacts);
    let error = CliError::RequestFailed { url: "u".to_string(), status: "403 Forbidden".to_string(), response: "no".to_string() };
    let (s, r) = step(&p, Stage::AwaitJobs { pipeline_id: 3 }, Event::RequestFailed { error });
    assert!(r.is_none());
    match s {
        Stage::Failed { error } => assert_eq!(error.message(), "API request failed\n  URL: u\n  Status: 403 Forbidden\n  Response: no"),
        other => panic!("unexpected {:?}", other),
    }
}

#[test]
fn finished_commands_stay_finished_law() {
    let p = plan(RefTarget::Branch("main".to_string()), Goal::DownloadArtifacts);
    let (s, r) = step(&p, Stage::Finished { job_id: 4 }, Event::Begin);
    assert!(matches!(s, Stage::Finished { job_id: 4 }));
    assert!(r.is_none());
    let (s, r) = step(&p, Stage::Failed { error: CliError::AmbiguousRef }, Event::ArtifactsSaved);
    assert!(matches!(s, Stage::Failed { error: CliError::AmbiguousRef }));
    assert!(r.is_none());
}

#[test]
fn unexpected_events_change_nothing() {
    let p = plan(RefTarget::Branch("main".to_string()), Goal::DownloadArtifacts);
    let (s, r) = step(&p, Stage::AwaitPipelines, Event::ArtifactsSaved);
    assert!(matches!(s, Stage::AwaitPipelines));
    assert!(r.is_none());
}

#[test]
fn exactly_one_ref_is_required() {
    assert!(matches!(select_ref(Some("main"), None), Ok(RefTarget::Branch(ref b)) if b == "main"));
    assert!(matches!(select_ref(None, Some("abc")), Ok(RefTarget::Commit(ref c)) if c == "abc"));
    let err = select_ref(Some("main"), Some("abc")).unwrap_err();
    assert_eq!(err.message(), "Must specify exactly one of --branch or --commit");
    assert_eq!(select_ref(None, None).unwrap_err(), CliError::AmbiguousRef);
}

#[test]
fn artifacts_command_plan() {
    let action = ArtifactsAction::Download {
        project: "g/p".to_string(),
        branch: Some("main".to_string()),
        commit: None,
        job: "build".to_string(),
        output: None,
        extract: false,
    };
    let p = artifacts_plan(API, &action).unwrap();
    assert_eq!(p.job_name, "build");
    assert!(matches!(p.goal, Goal::DownloadArtifacts));
    let action = ArtifactsAction::Download {
        project: "g/p".to_string(),
        branch: None,
        commit: None,
        job: "build".to_string(),
        output: Some("./dist".to_string()),
        extract: true,
    };
    assert_eq!(artifacts_plan(API, &action).unwrap_err(), CliError::AmbiguousRef);
}

#[test]
fn pipeline_command_plan() {
    let action = PipelineAction::Run {
        project: "g/p".to_string(),
        branch: None,
        commit: Some("abc".to_string()),
        job: "deploy".to_string(),
        variables: vec!["FOO=bar".to_string()],
        inputs: vec!["version=v2.1.0".to_string()],
    };
    let p = pipeline_plan(API, &action).unwrap();
    assert!(matches!(p.target, RefTarget::Commit(ref c) if c == "abc"));
    match p.goal {
        Goal::Trigger { variables, inputs } => {
            assert_eq!(variables.get(0).key, "FOO");
            assert_eq!(inputs.get(0).value, "v2.1.0");
        }
        other => panic!("unexpected {:?}", other),
    }
    let bad = PipelineAction::Run {
        project: "g/p".to_string(),
        branch: None,
        commit: None,
        job: "deploy".to_string(),
        variables: vec!["FOO".to_string()],
        inputs: vec![],
    };
    assert_eq!(pipeline_plan(API, &bad).unwrap_err(), CliError::InvalidVariable { item: "FOO".to_string() });
    let ambiguous = PipelineAction::Run {
        project: "g/p".to_string(),
        branch: None,
        commit: None,
        job: "deploy".to_string(),
        variables: vec![],
        inputs: vec!["x=1".to_string()],
    };
    assert_eq!(pipeline_plan(API, &ambiguous).unwrap_err(), CliError::AmbiguousRef);
}

#[test]
fn upload_replaces_an_existing_file_once_law() {
    let plan = upload_package(API, "g/p", "my-package", "1.0.0", "binary.tar.gz", vec![1, 2, 3]);
    assert_eq!(plan.url, "https://gitlab.com/api/v4/projects/g%2Fp/packages/generic/my-package/1.0.0/binary.tar.gz");
    let (s, r) = upload_step(&plan, UploadStage::Start, UploadEvent::Begin);
    assert!(matches!(r, Some(HttpRequest::Put { ref data, .. }) if data == &vec![1, 2, 3]));
    let conflict = CliError::RequestFailed { url: plan.url.clone(), status: "409 Conflict".to_string(), response: String::new() };
    let (s, r) = upload_step(&plan, s, UploadEvent::Rejected { status: 409, error: conflict });
    assert!(matches!(s, UploadStage::AwaitDelete));
    assert!(matches!(r, Some(HttpRequest::Delete { ref url }) if url == &plan.url));
    let (s, r) = upload_step(&plan, s, UploadEvent::DeleteAnswered);
    assert!(matches!(s, UploadStage::AwaitReupload));
    assert!(matches!(r, Some(HttpRequest::Put { .. })));
    let again = CliError::RequestFailed { url: plan.url.clone(), status: "409 Conflict".to_string(), response: String::new() };
    let (s, r) = upload_step(&plan, s, UploadEvent::Rejected { status: 409, error: again });
    assert!(matches!(s, UploadStage::Failed { .. }));
    assert!(r.is_none());
}

#[test]
fn upload_accepted_at_once() {
    let plan = upload_package(API, "g/p", "n", "v", "f", vec![]);
    let (s, _) = upload_step(&plan, UploadStage::Start, UploadEvent::Begin);
    let (s, r) = upload_step(&plan, s, UploadEvent::Accepted);
    assert!(matches!(s, UploadStage::Uploaded));
    assert!(r.is_none());
}

#[test]
fn upload_refused_otherwise_fails() {
    let plan = upload_package(API, "g/p", "n", "v", "f", vec![]);
    let refused = CliError::RequestFailed { url: "u".to_string(), status: "403 Forbidden".to_string(), response: String::new() };
    let (s, r) = upload_step(&plan, UploadStage::AwaitUpload, UploadEvent::Rejected { status: 403, error: refused });
    assert!(matches!(s, UploadStage::Failed { .. }));
    assert!(r.is_none());
}

#[test]
fn package_requests() {
    assert!(matches!(delete_package(API, "g/p", 42), HttpRequest::Delete { ref url } if url == "https://gitlab.com/api/v4/projects/g%2Fp/packages/42"));
    assert!(matches!(list_packages(API, "g/p", Some("x")), HttpRequest::Get { ref url } if url.ends_with("&package_name=x")));
    assert!(matches!(list_package_files(API, "g/p", 42), HttpRequest::Get { ref url } if url.ends_with("/packages/42/package_files")));
    assert!(matches!(download_package(API, "g/p", "n", "1", "f.bin"), HttpRequest::Get { ref url } if url.ends_with("/packages/generic/n/1/f.bin")));
    assert!(matches!(retry_job(API, "g/p", 3, &VarMap::new()), HttpRequest::Post { .. }));
}
