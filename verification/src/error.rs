//! The errors of the client and the text each is reported with.

use vstd::prelude::*;
use crate::text::{decimal, join, u64_to_decimal, views};

verus! {

/// Everything that makes a command fail.
#[derive(Debug, PartialEq, Eq)]
pub enum CliError {
    /// Neither `--api-url` nor `CI_API_V4_URL` gave the API root.
    MissingApiUrl,
    /// `--use-private-token` without a private token.
    MissingPrivateToken,
    /// No CI job token.
    MissingJobToken,
    /// `CI_API_V4_URL` is not set.
    ApiUrlUnset,
    /// None of the token variables is set.
    TokenUnset,
    /// Not exactly one of `--branch` and `--commit`.
    AmbiguousRef,
    /// A variable not written `KEY=VALUE`.
    InvalidVariable { item: String },
    /// A branch or tag without pipeline.
    NoPipelineForRef { git_ref: String },
    /// A commit without pipeline.
    NoPipelineForCommit { sha: String },
    /// No job of that name in the pipeline.
    JobNotFound { name: String, pipeline_id: u64 },
    /// The job runs or waits, so it cannot be started again.
    JobBusy { status: String },
    /// The GraphQL API answered with errors.
    GraphQl { messages: Vec<String> },
    /// The GraphQL answer has neither errors nor data.
    GraphQlMissingData,
    /// The job ID in a GraphQL global ID is not a number.
    InvalidJobIdInGid,
    /// The API answered with a status other than 2xx.
    RequestFailed { url: String, status: String, response: String },
    /// The request could not be sent or its answer not read.
    Transport { detail: String },
    /// The token cannot be sent as an HTTP header value.
    InvalidTokenValue,
    /// The path names no file (it is empty, a root, or ends in `..`).
    InvalidFilePath,
    /// The name of the file is not UTF-8.
    InvalidFileNameEncoding,
}

/// An error as plain values.
pub enum CliErrorView {
    MissingApiUrl,
    MissingPrivateToken,
    MissingJobToken,
    ApiUrlUnset,
    TokenUnset,
    AmbiguousRef,
    InvalidVariable { item: Seq<char> },
    NoPipelineForRef { git_ref: Seq<char> },
    NoPipelineForCommit { sha: Seq<char> },
    JobNotFound { name: Seq<char>, pipeline_id: u64 },
    JobBusy { status: Seq<char> },
    GraphQl { messages: Seq<Seq<char>> },
    GraphQlMissingData,
    InvalidJobIdInGid,
    RequestFailed { url: Seq<char>, status: Seq<char>, response: Seq<char> },
    Transport { detail: Seq<char> },
    InvalidTokenValue,
    InvalidFilePath,
    InvalidFileNameEncoding,
}

impl View for CliError {
    type V = CliErrorView;

    open spec fn view(&self) -> CliErrorView {
        match self {
            CliError::MissingApiUrl => CliErrorView::MissingApiUrl,
            CliError::MissingPrivateToken => CliErrorView::MissingPrivateToken,
            CliError::MissingJobToken => CliErrorView::MissingJobToken,
            CliError::ApiUrlUnset => CliErrorView::ApiUrlUnset,
            CliError::TokenUnset => CliErrorView::TokenUnset,
            CliError::AmbiguousRef => CliErrorView::AmbiguousRef,
            CliError::InvalidVariable { item } => CliErrorView::InvalidVariable { item: item@ },
            CliError::NoPipelineForRef { git_ref } => CliErrorView::NoPipelineForRef { git_ref: git_ref@ },
            CliError::NoPipelineForCommit { sha } => CliErrorView::NoPipelineForCommit { sha: sha@ },
            CliError::JobNotFound { name, pipeline_id } => CliErrorView::JobNotFound {
                name: name@,
                pipeline_id: *pipeline_id,
            },
            CliError::JobBusy { status } => CliErrorView::JobBusy { status: status@ },
            CliError::GraphQl { messages } => CliErrorView::GraphQl { messages: views(messages@) },
            CliError::GraphQlMissingData => CliErrorView::GraphQlMissingData,
            CliError::InvalidJobIdInGid => CliErrorView::InvalidJobIdInGid,
            CliError::RequestFailed { url, status, response } => CliErrorView::RequestFailed {
                url: url@,
                status: status@,
                response: response@,
            },
            CliError::Transport { detail } => CliErrorView::Transport { detail: detail@ },
            CliError::InvalidTokenValue => CliErrorView::InvalidTokenValue,
            CliError::InvalidFilePath => CliErrorView::InvalidFilePath,
            CliError::InvalidFileNameEncoding => CliErrorView::InvalidFileNameEncoding,
        }
    }
}

/// The text that reports an error.
pub open spec fn error_text(e: CliError) -> Seq<char> {
    match e {
        CliError::MissingApiUrl => "--api-url or CI_API_V4_URL is required"@,
        CliError::MissingPrivateToken => "--use-private-token is set but no PRIVATE_TOKEN found (use --private-token or set GITLAB_PRIVATE_TOKEN)"@,
        CliError::MissingJobToken => "No JOB_TOKEN found (use --job-token, set CI_JOB_TOKEN, or add --use-private-token)"@,
        CliError::ApiUrlUnset => "CI_API_V4_URL environment variable is not set"@,
        CliError::TokenUnset => "No token found. Set one of: GITLAB_PRIVATE_TOKEN, GITLAB_TOKEN, or CI_JOB_TOKEN"@,
        CliError::AmbiguousRef => "Must specify exactly one of --branch or --commit"@,
        CliError::InvalidVariable { item } => "Invalid variable format '"@ + item@ + "', expected KEY=VALUE"@,
        CliError::NoPipelineForRef { git_ref } => "No pipeline found for ref '"@ + git_ref@ + "'"@,
        CliError::NoPipelineForCommit { sha } => "No pipeline found for commit '"@ + sha@ + "'"@,
        CliError::JobNotFound { name, pipeline_id } => "Job '"@ + name@ + "' not found in pipeline "@
            + decimal(pipeline_id as nat),
        CliError::JobBusy { status } => "Job is currently '"@ + status@ + "' and cannot be triggered"@,
        CliError::GraphQl { messages } => "GraphQL errors: "@ + join(views(messages@), ", "@),
        CliError::GraphQlMissingData => "GraphQL response missing data"@,
        CliError::InvalidJobIdInGid => "Invalid job ID in GID"@,
        CliError::RequestFailed { url, status, response } => "API request failed\n  URL: "@ + url@
            + "\n  Status: "@ + status@ + "\n  Response: "@ + response@,
        CliError::Transport { detail } => detail@,
        CliError::InvalidTokenValue => "failed to parse header value"@,
        CliError::InvalidFilePath => "Invalid file path"@,
        CliError::InvalidFileNameEncoding => "Invalid file name encoding"@,
    }
}

impl CliError {
    /// The text that reports this error.
    pub fn message(&self) -> (m: String)
        ensures
            m@ == error_text(*self),
    {
        match self {
            CliError::MissingApiUrl => String::from_str("--api-url or CI_API_V4_URL is required"),
            CliError::MissingPrivateToken => String::from_str(
                "--use-private-token is set but no PRIVATE_TOKEN found (use --private-token or set GITLAB_PRIVATE_TOKEN)",
            ),
            CliError::MissingJobToken => String::from_str(
                "No JOB_TOKEN found (use --job-token, set CI_JOB_TOKEN, or add --use-private-token)",
            ),
            CliError::ApiUrlUnset => String::from_str("CI_API_V4_URL environment variable is not set"),
            CliError::TokenUnset => String::from_str(
                "No token found. Set one of: GITLAB_PRIVATE_TOKEN, GITLAB_TOKEN, or CI_JOB_TOKEN",
            ),
            CliError::AmbiguousRef => String::from_str("Must specify exactly one of --branch or --commit"),
            CliError::InvalidVariable { item } => {
                let mut m = String::from_str("Invalid variable format '");
                m.append(item.as_str());
                m.append("', expected KEY=VALUE");
                m
            },
            CliError::NoPipelineForRef { git_ref } => {
                let mut m = String::from_str("No pipeline found for ref '");
                m.append(git_ref.as_str());
                m.append("'");
                m
            },
            CliError::NoPipelineForCommit { sha } => {
                let mut m = String::from_str("No pipeline found for commit '");
                m.append(sha.as_str());
                m.append("'");
                m
            },
            CliError::JobNotFound { name, pipeline_id } => {
                let mut m = String::from_str("Job '");
                m.append(name.as_str());
                m.append("' not found in pipeline ");
                m.append(u64_to_decimal(*pipeline_id).as_str());
                m
            },
            CliError::JobBusy { status } => {
                let mut m = String::from_str("Job is currently '");
                m.append(status.as_str());
                m.append("' and cannot be triggered");
                m
            },
            CliError::GraphQl { messages } => {
                let mut m = String::from_str("GraphQL errors: ");
                m.append(crate::text::join_strings(messages, ", ").as_str());
                m
            },
            CliError::GraphQlMissingData => String::from_str("GraphQL response missing data"),
            CliError::InvalidJobIdInGid => String::from_str("Invalid job ID in GID"),
            CliError::RequestFailed { url, status, response } => {
                let mut m = String::from_str("API request failed\n  URL: ");
                m.append(url.as_str());
                m.append("\n  Status: ");
                m.append(status.as_str());
                m.append("\n  Response: ");
                m.append(response.as_str());
                m
            },
            CliError::Transport { detail } => detail.clone(),
            CliError::InvalidTokenValue => String::from_str("failed to parse header value"),
            CliError::InvalidFilePath => String::from_str("Invalid file path"),
            CliError::InvalidFileNameEncoding => String::from_str("Invalid file name encoding"),
        }
    }
}

} // verus!
