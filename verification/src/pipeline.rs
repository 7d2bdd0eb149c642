//! Decisions about pipelines and jobs: which job is meant, whether it may be
//! started, and what the API answered.

use vstd::prelude::*;
use crate::bodies::job_gid;
use crate::error::CliError;
use crate::model::{JobDetail, TriggeredJob};
use crate::text::{
    decimal, find_last, is_last_index, last_index, lemma_decimal, lemma_decimal_roundtrip,
    lemma_last_index, parse_u64, parse_u64_spec, tail_from, text_eq,
};

verus! {

/// Statuses of a job that is under way; such a job is not started again.
pub open spec fn is_busy_status(status: Seq<char>) -> bool {
    status == "running"@ || status == "pending"@
}

/// Refuses to trigger a job that is running or pending.
pub fn check_job_status(status: &str) -> (r: Result<(), CliError>)
    ensures
        match r {
            Ok(()) => !is_busy_status(status@),
            Err(CliError::JobBusy { status: s }) => is_busy_status(status@) && s@ == status@,
            Err(_) => false,
        },
{
    if text_eq(status, "running") || text_eq(status, "pending") {
        Err(CliError::JobBusy { status: String::from_str(status) })
    } else {
        Ok(())
    }
}

/// The part of a GraphQL global ID after its last `/` (all of it when there is none),
/// as `rsplit('/').next()` gives it.
pub open spec fn gid_suffix(gid: Seq<char>) -> Seq<char> {
    if gid.contains('/') {
        gid.skip(last_index(gid, '/') + 1)
    } else {
        gid
    }
}

/// The numeric ID at the end of a GraphQL global ID such as `gid://gitlab/Ci::Build/42`.
pub open spec fn parse_gid_spec(gid: Seq<char>) -> Option<u64> {
    parse_u64_spec(gid_suffix(gid))
}

/// Reads the job ID at the end of a GraphQL global ID.
pub fn parse_gid_id(gid: &str) -> (r: Result<u64, CliError>)
    ensures
        match r {
            Ok(n) => parse_gid_spec(gid@) == Some(n),
            Err(e) => parse_gid_spec(gid@) is None && e == CliError::InvalidJobIdInGid,
        },
{
    let len = gid.unicode_len();
    let suffix = match find_last(gid, '/') {
        Some(i) => {
            assert(i < len);
            proof {
                lemma_last_index(gid@, '/', i as int);
                assert(gid@[i as int] == '/');
            }
            tail_from(gid, i + 1)
        },
        None => String::from_str(gid),
    };
    match parse_u64(suffix.as_str()) {
        Some(n) => Ok(n),
        None => Err(CliError::InvalidJobIdInGid),
    }
}

/// The job ID is read back from the global ID the client builds for it:
/// `parse_gid_id` undoes `job_gid`.
pub proof fn lemma_gid_roundtrip(job_id: u64)
    ensures
        parse_gid_spec(job_gid(job_id)) == Some(job_id),
{
    let prefix = "gid://gitlab/Ci::Build/"@;
    let digits = decimal(job_id as nat);
    let gid = job_gid(job_id);
    reveal_strlit("gid://gitlab/Ci::Build/");
    lemma_decimal(job_id as nat);
    let i = prefix.len() - 1;
    assert(gid[i] == '/');
    assert forall|j: int| i < j < gid.len() implies gid[j] != '/' by {
        assert(gid[j] == digits[j - prefix.len()]);
        assert(crate::text::is_digit(digits[j - prefix.len()]));
    }
    assert(is_last_index(gid, '/', i));
    lemma_last_index(gid, '/', i);
    assert(gid.contains('/'));
    assert(gid.skip(i + 1) =~= digits);
    lemma_decimal_roundtrip(job_id);
}

/// Whether `i` is the position of the first job named `name`.
pub open spec fn is_first_job_named(jobs: Seq<JobDetail>, name: Seq<char>, i: int) -> bool {
    &&& 0 <= i < jobs.len()
    &&& jobs[i].name@ == name
    &&& forall|j: int| 0 <= j < i ==> #[trigger] jobs[j].name@ != name
}

/// Whether some job is named `name`.
pub open spec fn has_job_named(jobs: Seq<JobDetail>, name: Seq<char>) -> bool {
    exists|i: int| 0 <= i < jobs.len() && #[trigger] jobs[i].name@ == name
}

/// A copy of a job.
pub fn copy_job(job: &JobDetail) -> (r: JobDetail)
    ensures
        r.id == job.id,
        r.name@ == job.name@,
        r.status@ == job.status@,
{
    JobDetail { id: job.id, name: job.name.clone(), status: job.status.clone() }
}

/// Finds the first job of the pipeline with the given name.
pub fn find_job(jobs: &Vec<JobDetail>, job_name: &str, pipeline_id: u64) -> (r: Result<
    JobDetail,
    CliError,
>)
    ensures
        match r {
            Ok(job) => exists|i: int|
                is_first_job_named(jobs@, job_name@, i) && job.id == jobs@[i].id && job.name@
                    == jobs@[i].name@ && job.status@ == jobs@[i].status@,
            Err(CliError::JobNotFound { name, pipeline_id: p }) => !has_job_named(jobs@, job_name@)
                && name@ == job_name@ && p == pipeline_id,
            Err(_) => false,
        },
{
    let mut i: usize = 0;
    while i < jobs.len()
        invariant
            i <= jobs@.len(),
            forall|j: int| 0 <= j < i ==> #[trigger] jobs@[j].name@ != job_name@,
        decreases jobs@.len() - i,
    {
        if text_eq(jobs[i].name.as_str(), job_name) {
            let job = copy_job(&jobs[i]);
            assert(is_first_job_named(jobs@, job_name@, i as int));
            return Ok(job);
        }
        i = i + 1;
    }
    Err(CliError::JobNotFound { name: String::from_str(job_name), pipeline_id })
}

/// Interprets the answer to the GraphQL retry mutation: errors win, then
/// missing data, then the job ID in the new job's global ID.
pub fn interpret_retry_reply(errors: Option<Vec<String>>, job_gid: Option<String>) -> (r: Result<
    TriggeredJob,
    CliError,
>)
    ensures
        match errors {
            Some(ms) => match r {
                Err(CliError::GraphQl { messages }) => messages@ == ms@,
                _ => false,
            },
            None => match job_gid {
                None => r == Err::<TriggeredJob, CliError>(CliError::GraphQlMissingData),
                Some(g) => match parse_gid_spec(g@) {
                    Some(n) => r == Ok::<TriggeredJob, CliError>(TriggeredJob { id: n }),
                    None => r == Err::<TriggeredJob, CliError>(CliError::InvalidJobIdInGid),
                },
            },
        },
{
    match errors {
        Some(messages) => Err(CliError::GraphQl { messages }),
        None => match job_gid {
            None => Err(CliError::GraphQlMissingData),
            Some(g) => match parse_gid_id(g.as_str()) {
                Ok(n) => Ok(TriggeredJob { id: n }),
                Err(e) => Err(e),
            },
        },
    }
}

} // verus!
