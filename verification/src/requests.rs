//! The HTTP requests the client sends, one function per API operation.

use vstd::prelude::*;
use crate::bodies::{
    build_play_body, build_retry_body, build_retry_request, play_body_spec, retry_body_spec,
    retry_request_spec,
};
use crate::url::{
    artifacts_url, graphql_url, graphql_url_spec, job_url_spec, package_file_url,
    package_file_url_spec, package_files_url, package_url, package_url_spec, packages_url,
    packages_url_spec, pipelines_by_ref_url, pipelines_by_ref_url_spec, pipelines_by_sha_url,
    pipelines_by_sha_url_spec, play_url, retry_url,
};
use crate::vars::VarMap;

verus! {

/// An HTTP request for the program to send.
#[derive(Debug)]
pub enum HttpRequest {
    Get { url: String },
    Post { url: String },
    PostJson { url: String, body: String },
    Put { url: String, data: Vec<u8> },
    Delete { url: String },
}

/// A request as plain values.
pub enum RequestView {
    Get { url: Seq<char> },
    Post { url: Seq<char> },
    PostJson { url: Seq<char>, body: Seq<char> },
    Put { url: Seq<char>, data: Seq<u8> },
    Delete { url: Seq<char> },
}

impl View for HttpRequest {
    type V = RequestView;

    open spec fn view(&self) -> RequestView {
        match self {
            HttpRequest::Get { url } => RequestView::Get { url: url@ },
            HttpRequest::Post { url } => RequestView::Post { url: url@ },
            HttpRequest::PostJson { url, body } => RequestView::PostJson { url: url@, body: body@ },
            HttpRequest::Put { url, data } => RequestView::Put { url: url@, data: data@ },
            HttpRequest::Delete { url } => RequestView::Delete { url: url@ },
        }
    }
}

/// The view of an optional request.
pub open spec fn request_view(r: Option<HttpRequest>) -> Option<RequestView> {
    match r {
        Some(q) => Some(q@),
        None => None,
    }
}

/// The request for the latest pipeline of a branch or tag.
pub fn get_pipeline_by_ref(api_url: &str, project: &str, git_ref: &str) -> (r: HttpRequest)
    ensures
        r@ == (RequestView::Get { url: pipelines_by_ref_url_spec(api_url@, project@, git_ref@) }),
{
    HttpRequest::Get { url: pipelines_by_ref_url(api_url, project, git_ref) }
}

/// The request for the latest pipeline of a commit.
pub fn get_pipeline_by_sha(api_url: &str, project: &str, sha: &str) -> (r: HttpRequest)
    ensures
        r@ == (RequestView::Get { url: pipelines_by_sha_url_spec(api_url@, project@, sha@) }),
{
    HttpRequest::Get { url: pipelines_by_sha_url(api_url, project, sha) }
}

/// The request that downloads the artifacts archive of a job.
pub fn download_artifacts(api_url: &str, project: &str, job_id: u64) -> (r: HttpRequest)
    ensures
        r@ == (RequestView::Get { url: job_url_spec(api_url@, project@, job_id, "/artifacts"@) }),
{
    HttpRequest::Get { url: artifacts_url(api_url, project, job_id) }
}

/// The request that plays a manual job with variables and inputs.
pub fn play_job(api_url: &str, project: &str, job_id: u64, variables: &VarMap, inputs: &VarMap) -> (r:
    HttpRequest)
    ensures
        r@ == (RequestView::PostJson {
            url: job_url_spec(api_url@, project@, job_id, "/play"@),
            body: play_body_spec(variables@, inputs@),
        }),
{
    HttpRequest::PostJson { url: play_url(api_url, project, job_id), body: build_play_body(variables, inputs) }
}

/// The GraphQL request that retries a job with variables and inputs.
pub fn retry_job_with_variables(api_url: &str, job_id: u64, variables: &VarMap, inputs: &VarMap) -> (r:
    HttpRequest)
    ensures
        r@ == (RequestView::PostJson {
            url: graphql_url_spec(api_url@),
            body: retry_request_spec(job_id, variables@, inputs@),
        }),
{
    HttpRequest::PostJson {
        url: graphql_url(api_url),
        body: build_retry_request(job_id, variables, inputs),
    }
}

/// The request that retries a job: without a body when there is no input,
/// with the inputs as JSON otherwise.
pub fn retry_job(api_url: &str, project: &str, job_id: u64, inputs: &VarMap) -> (r: HttpRequest)
    ensures
        inputs@.len() == 0 ==> r@ == (RequestView::Post {
            url: job_url_spec(api_url@, project@, job_id, "/retry"@),
        }),
        inputs@.len() > 0 ==> r@ == (RequestView::PostJson {
            url: job_url_spec(api_url@, project@, job_id, "/retry"@),
            body: retry_body_spec(inputs@),
        }),
{
    let url = retry_url(api_url, project, job_id);
    if inputs.is_empty() {
        HttpRequest::Post { url }
    } else {
        HttpRequest::PostJson { url, body: build_retry_body(inputs) }
    }
}

/// The request that downloads one file of a generic package.
pub fn download_package(api_url: &str, project: &str, name: &str, version: &str, file_name: &str) -> (r:
    HttpRequest)
    ensures
        r@ == (RequestView::Get {
            url: package_file_url_spec(api_url@, project@, name@, version@, file_name@),
        }),
{
    HttpRequest::Get { url: package_file_url(api_url, project, name, version, file_name) }
}

/// The request that lists the packages of a project, optionally of one name.
pub fn list_packages(api_url: &str, project: &str, name: Option<&str>) -> (r: HttpRequest)
    ensures
        r@ == (RequestView::Get {
            url: packages_url_spec(
                api_url@,
                project@,
                match name {
                    Some(n) => Some(n@),
                    None => None,
                },
            ),
        }),
{
    HttpRequest::Get { url: packages_url(api_url, project, name) }
}

/// The request that deletes a package.
pub fn delete_package(api_url: &str, project: &str, package_id: u64) -> (r: HttpRequest)
    ensures
        r@ == (RequestView::Delete { url: package_url_spec(api_url@, project@, package_id) }),
{
    HttpRequest::Delete { url: package_url(api_url, project, package_id) }
}

/// The request that lists the files of a package.
pub fn list_package_files(api_url: &str, project: &str, package_id: u64) -> (r: HttpRequest)
    ensures
        r@ == (RequestView::Get {
            url: package_url_spec(api_url@, project@, package_id) + "/package_files"@,
        }),
{
    HttpRequest::Get { url: package_files_url(api_url, project, package_id) }
}

} // verus!
