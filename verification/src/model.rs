//! The API objects the client reads, as plain values.

use vstd::prelude::*;

verus! {

/// A CI/CD pipeline.
#[derive(Debug, PartialEq, Eq)]
pub struct Pipeline {
    pub id: u64,
}

/// A job, as the artifact listing shows it.
#[derive(Debug, PartialEq, Eq)]
pub struct Job {
    pub id: u64,
    pub name: String,
}

/// A job of a pipeline with its status (`manual`, `running`, `success`, ...).
#[derive(Debug, PartialEq, Eq)]
pub struct JobDetail {
    pub id: u64,
    pub name: String,
    pub status: String,
}

/// A job as plain values.
pub struct JobView {
    pub id: u64,
    pub name: Seq<char>,
    pub status: Seq<char>,
}

impl View for JobDetail {
    type V = JobView;

    open spec fn view(&self) -> JobView {
        JobView { id: self.id, name: self.name@, status: self.status@ }
    }
}

/// The job that a play or retry request started.
#[derive(Debug, PartialEq, Eq)]
pub struct TriggeredJob {
    pub id: u64,
}

/// A package of the package registry.
#[derive(Debug, PartialEq, Eq)]
pub struct Package {
    pub id: u64,
    pub name: String,
    pub version: String,
    pub package_type: String,
}

/// A file of a package.
#[derive(Debug, PartialEq, Eq)]
pub struct PackageFile {
    pub id: u64,
    pub package_id: u64,
    pub file_name: String,
    pub size: u64,
    pub created_at: String,
}

/// How the client authenticates.
#[derive(Debug, PartialEq, Eq, Structural)]
pub enum TokenKind {
    /// A personal access token, sent as `PRIVATE-TOKEN`.
    Private,
    /// A CI job token, sent as `JOB-TOKEN`.
    Job,
}

/// API root and token read from the environment.
#[derive(Debug, PartialEq, Eq)]
pub struct GitLabConfig {
    pub api_url: String,
    pub token: String,
}

} // verus!
