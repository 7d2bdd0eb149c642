//! The package registry: uploading with replacement of an existing file, and the
//! listing of packages.

use vstd::prelude::*;
use crate::error::{CliError, CliErrorView};
use crate::requests::{HttpRequest, RequestView, request_view};
use crate::model::Package;
use crate::text::{decimal, pad_right, pad_right_spec, u64_to_decimal, views};

verus! {

/// An upload: where the file goes and what it holds.
#[derive(Debug)]
pub struct UploadPlan {
    pub url: String,
    pub data: Vec<u8>,
}

/// How far an upload has come.
#[derive(Debug)]
pub enum UploadStage {
    /// Nothing sent yet.
    Start,
    /// The file was sent.
    AwaitUpload,
    /// The file already existed; the old one is being deleted.
    AwaitDelete,
    /// The file is sent again after the deletion.
    AwaitReupload,
    /// The file is stored.
    Uploaded,
    /// Stopped with an error.
    Failed { error: CliError },
}

/// An upload stage as plain values.
pub enum UploadStageView {
    Start,
    AwaitUpload,
    AwaitDelete,
    AwaitReupload,
    Uploaded,
    Failed { error: CliErrorView },
}

impl View for UploadStage {
    type V = UploadStageView;

    open spec fn view(&self) -> UploadStageView {
        match self {
            UploadStage::Start => UploadStageView::Start,
            UploadStage::AwaitUpload => UploadStageView::AwaitUpload,
            UploadStage::AwaitDelete => UploadStageView::AwaitDelete,
            UploadStage::AwaitReupload => UploadStageView::AwaitReupload,
            UploadStage::Uploaded => UploadStageView::Uploaded,
            UploadStage::Failed { error } => UploadStageView::Failed { error: error@ },
        }
    }
}

/// What happened to the last request of an upload.
#[derive(Debug)]
pub enum UploadEvent {
    /// The upload starts.
    Begin,
    /// The server stored the file (2xx).
    Accepted,
    /// The server answered with another status.
    Rejected { status: u16, error: CliError },
    /// The deletion was answered, whatever its status.
    DeleteAnswered,
    /// The request could not be sent or its answer not read.
    RequestFailed { error: CliError },
}

/// The status with which the registry refuses to overwrite a package file.
pub open spec fn is_conflict(status: u16) -> bool {
    status == 409
}

/// One step of an upload: a file that already exists (409) is deleted and sent
/// again, once; any other refusal, and any refusal of the second upload, fails.
pub open spec fn next_upload(plan: UploadPlan, stage: UploadStageView, event: UploadEvent) -> (
    UploadStageView,
    Option<RequestView>,
) {
    match (stage, event) {
        (UploadStageView::Start, UploadEvent::Begin) => (
            UploadStageView::AwaitUpload,
            Some(RequestView::Put { url: plan.url@, data: plan.data@ }),
        ),
        (UploadStageView::AwaitUpload, UploadEvent::Accepted) => (UploadStageView::Uploaded, None),
        (UploadStageView::AwaitUpload, UploadEvent::Rejected { status, error }) => {
            if is_conflict(status) {
                (UploadStageView::AwaitDelete, Some(RequestView::Delete { url: plan.url@ }))
            } else {
                (UploadStageView::Failed { error: error@ }, None)
            }
        },
        (UploadStageView::AwaitDelete, UploadEvent::DeleteAnswered) => (
            UploadStageView::AwaitReupload,
            Some(RequestView::Put { url: plan.url@, data: plan.data@ }),
        ),
        (UploadStageView::AwaitReupload, UploadEvent::Accepted) => (UploadStageView::Uploaded, None),
        (UploadStageView::AwaitReupload, UploadEvent::Rejected { status: _, error }) => (
            UploadStageView::Failed { error: error@ },
            None,
        ),
        (UploadStageView::AwaitUpload, UploadEvent::RequestFailed { error }) => (
            UploadStageView::Failed { error: error@ },
            None,
        ),
        (UploadStageView::AwaitDelete, UploadEvent::RequestFailed { error }) => (
            UploadStageView::Failed { error: error@ },
            None,
        ),
        (UploadStageView::AwaitReupload, UploadEvent::RequestFailed { error }) => (
            UploadStageView::Failed { error: error@ },
            None,
        ),
        _ => (stage, None),
    }
}

fn put_request(plan: &UploadPlan) -> (r: HttpRequest)
    ensures
        r@ == (RequestView::Put { url: plan.url@, data: plan.data@ }),
{
    HttpRequest::Put { url: plan.url.clone(), data: plan.data.clone() }
}

/// The upload of a file as a generic package: its URL and its contents.
pub fn upload_package(
    api_url: &str,
    project: &str,
    name: &str,
    version: &str,
    file_name: &str,
    data: Vec<u8>,
) -> (plan: UploadPlan)
    ensures
        plan.url@ == crate::url::package_file_url_spec(api_url@, project@, name@, version@, file_name@),
        plan.data@ == data@,
{
    UploadPlan { url: crate::url::package_file_url(api_url, project, name, version, file_name), data }
}

/// Decides the next stage of an upload and the request to send next.
pub fn upload_step(plan: &UploadPlan, stage: UploadStage, event: UploadEvent) -> (r: (
    UploadStage,
    Option<HttpRequest>,
))
    ensures
        (r.0@, request_view(r.1)) == next_upload(*plan, stage@, event),
{
    match stage {
        UploadStage::Start => match event {
            UploadEvent::Begin => (UploadStage::AwaitUpload, Some(put_request(plan))),
            _ => (UploadStage::Start, None),
        },
        UploadStage::AwaitUpload => match event {
            UploadEvent::Accepted => (UploadStage::Uploaded, None),
            UploadEvent::Rejected { status, error } => {
                if status == 409 {
                    (UploadStage::AwaitDelete, Some(HttpRequest::Delete { url: plan.url.clone() }))
                } else {
                    (UploadStage::Failed { error }, None)
                }
            },
            UploadEvent::RequestFailed { error } => (UploadStage::Failed { error }, None),
            _ => (UploadStage::AwaitUpload, None),
        },
        UploadStage::AwaitDelete => match event {
            UploadEvent::DeleteAnswered => (UploadStage::AwaitReupload, Some(put_request(plan))),
            UploadEvent::RequestFailed { error } => (UploadStage::Failed { error }, None),
            _ => (UploadStage::AwaitDelete, None),
        },
        UploadStage::AwaitReupload => match event {
            UploadEvent::Accepted => (UploadStage::Uploaded, None),
            UploadEvent::Rejected { status: _, error } => (UploadStage::Failed { error }, None),
            UploadEvent::RequestFailed { error } => (UploadStage::Failed { error }, None),
            _ => (UploadStage::AwaitReupload, None),
        },
        UploadStage::Uploaded => (UploadStage::Uploaded, None),
        UploadStage::Failed { error } => (UploadStage::Failed { error }, None),
    }
}

/// The last segment of a path: the bytes after its last `/`.
pub open spec fn last_segment(p: Seq<u8>) -> Seq<u8>
    decreases p.len(),
{
    if p.len() == 0 || p.last() == 0x2f {
        Seq::empty()
    } else {
        last_segment(p.drop_last()).push(p.last())
    }
}

/// Whether `p` ends with a `.` segment (`.`, or `/.` at its end).
pub open spec fn ends_with_current_dir(p: Seq<u8>) -> bool {
    p.len() > 0 && p.last() == 0x2e && (p.len() == 1 || p[p.len() - 2] == 0x2f)
}

/// The last component of a path, as `Path::file_name` gives it: trailing `/`
/// and `.` segments are passed over; a path that is then empty, or whose last
/// segment is `..`, names no file.
pub open spec fn file_name_spec(p: Seq<u8>) -> Option<Seq<u8>>
    decreases p.len(),
{
    if p.len() == 0 {
        None
    } else if p.last() == 0x2f || ends_with_current_dir(p) {
        file_name_spec(p.drop_last())
    } else if last_segment(p) == seq![0x2eu8, 0x2eu8] {
        None
    } else {
        Some(last_segment(p))
    }
}

/// Reads bytes as UTF-8 text with `std::str::from_utf8`.
///
/// Trusted: std documents that `from_utf8` succeeds exactly when the bytes are
/// valid UTF-8, and then gives the text they encode.
#[verifier::external_body]
fn utf8_text(bytes: &[u8]) -> (r: Option<String>)
    ensures
        match r {
            Some(t) => vstd::utf8::valid_utf8(bytes@) && t@ == vstd::utf8::decode_utf8(bytes@),
            None => !vstd::utf8::valid_utf8(bytes@),
        },
{
    std::str::from_utf8(bytes).ok().map(String::from)
}

/// The name of the file a path (given by its bytes) points to, as text: it
/// names the uploaded package file. A path that names no file, and a name that
/// is not UTF-8, are refused.
pub fn file_name_of(path: &[u8]) -> (r: Result<String, CliError>)
    ensures
        match file_name_spec(path@) {
            None => r == Err::<String, CliError>(CliError::InvalidFilePath),
            Some(name) => if vstd::utf8::valid_utf8(name) {
                r matches Ok(t) && t@ == vstd::utf8::decode_utf8(name)
            } else {
                r == Err::<String, CliError>(CliError::InvalidFileNameEncoding)
            },
        },
{
    let mut end: usize = path.len();
    assert(path@.take(end as int) =~= path@);
    loop
        invariant
            end <= path@.len(),
            file_name_spec(path@) == file_name_spec(path@.take(end as int)),
        decreases end,
    {
        let ghost cur = path@.take(end as int);
        if end == 0 {
            return Err(CliError::InvalidFilePath);
        }
        let c = path[end - 1];
        let current_dir = c == 0x2e && (end == 1 || path[end - 2] == 0x2f);
        if c == 0x2f || current_dir {
            assert(cur.last() == c);
            assert(end == 1 || cur[end - 2] == path@[end - 2]);
            assert(cur.drop_last() =~= path@.take(end - 1));
            end = end - 1;
        } else {
            assert(cur.last() == c);
            assert(end == 1 || cur[end - 2] == path@[end - 2]);
            let mut start: usize = end;
            while start > 0 && path[start - 1] != 0x2f
                invariant
                    start <= end,
                    end <= path@.len(),
                    cur == path@.take(end as int),
                    last_segment(cur) == last_segment(path@.take(start as int)) + path@.subrange(
                        start as int,
                        end as int,
                    ),
                decreases start,
            {
                let ghost q = path@.take(start as int);
                assert(q.drop_last() =~= path@.take(start - 1));
                assert(q.last() == path@[start - 1]);
                assert(path@.subrange(start - 1, end as int) =~= seq![path@[start - 1]]
                    + path@.subrange(start as int, end as int));
                start = start - 1;
            }
            proof {
                let q = path@.take(start as int);
                if start > 0 {
                    assert(q.last() == path@[start - 1]);
                }
                assert(last_segment(q) == Seq::<u8>::empty());
            }
            let segment = &path[start..end];
            assert(segment@ =~= last_segment(cur));
            if segment.len() == 2 && segment[0] == 0x2e && segment[1] == 0x2e {
                assert(segment@ =~= seq![0x2eu8, 0x2eu8]);
                return Err(CliError::InvalidFilePath);
            }
            assert(segment@ != seq![0x2eu8, 0x2eu8]) by {
                if segment@ == seq![0x2eu8, 0x2eu8] {
                    assert(segment@[0] == 0x2e && segment@[1] == 0x2e);
                }
            }
            return match utf8_text(segment) {
                Some(name) => Ok(name),
                None => Err(CliError::InvalidFileNameEncoding),
            };
        }
    }
}

/// One line of the package listing: ID, name and version left-aligned in
/// columns of 8, 40 and 20 characters, then the package type.
pub open spec fn package_row_spec(id: u64, name: Seq<char>, version: Seq<char>, package_type: Seq<char>) -> Seq<char> {
    pad_right_spec(decimal(id as nat), 8) + " "@ + pad_right_spec(name, 40) + " "@ + pad_right_spec(
        version,
        20,
    ) + " "@ + package_type
}

/// Formats one line of the package listing.
pub fn format_package_row(package: &Package) -> (row: String)
    ensures
        row@ == package_row_spec(package.id, package.name@, package.version@, package.package_type@),
{
    let mut row = pad_right(u64_to_decimal(package.id).as_str(), 8);
    row.append(" ");
    row.append(pad_right(package.name.as_str(), 40).as_str());
    row.append(" ");
    row.append(pad_right(package.version.as_str(), 20).as_str());
    row.append(" ");
    row.append(package.package_type.as_str());
    row
}

/// The lines that list packages: one row per package, or a single line saying
/// there is none.
pub open spec fn listing_spec(packages: Seq<Package>) -> Seq<Seq<char>> {
    if packages.len() == 0 {
        seq!["No packages found."@]
    } else {
        packages.map_values(
            |p: Package| package_row_spec(p.id, p.name@, p.version@, p.package_type@),
        )
    }
}

/// Formats the package listing.
pub fn format_listing(packages: &Vec<Package>) -> (lines: Vec<String>)
    ensures
        views(lines@) == listing_spec(packages@),
        packages@.len() == 0 ==> lines@.len() == 1 && lines@[0]@ == "No packages found."@,
        packages@.len() > 0 ==> lines@.len() == packages@.len(),
        forall|i: int|
            0 <= i < packages@.len() ==> #[trigger] lines@[i]@ == package_row_spec(
                packages@[i].id,
                packages@[i].name@,
                packages@[i].version@,
                packages@[i].package_type@,
            ),
{
    let mut lines: Vec<String> = Vec::new();
    if packages.len() == 0 {
        lines.push(String::from_str("No packages found."));
        assert(views(lines@) =~= listing_spec(packages@));
        return lines;
    }
    let mut i: usize = 0;
    while i < packages.len()
        invariant
            i <= packages@.len(),
            packages@.len() > 0,
            views(lines@) == packages@.take(i as int).map_values(
                |p: Package| package_row_spec(p.id, p.name@, p.version@, p.package_type@),
            ),
        decreases packages@.len() - i,
    {
        let ghost old_lines = lines@;
        let row = format_package_row(&packages[i]);
        lines.push(row);
        assert(packages@.take(i + 1) =~= packages@.take(i as int).push(packages@[i as int]));
        assert(views(lines@) =~= views(old_lines).push(row@));
        assert(views(lines@) =~= packages@.take(i + 1).map_values(
            |p: Package| package_row_spec(p.id, p.name@, p.version@, p.package_type@),
        ));
        i = i + 1;
    }
    assert(packages@.take(packages@.len() as int) =~= packages@);
    assert forall|i: int| 0 <= i < packages@.len() implies #[trigger] lines@[i]@ == package_row_spec(
        packages@[i].id,
        packages@[i].name@,
        packages@[i].version@,
        packages@[i].package_type@,
    ) by {
        assert(views(lines@)[i] == lines@[i]@);
    }
    lines
}

/// How far an upload has come.
pub open spec fn upload_rank(stage: UploadStageView) -> int {
    match stage {
        UploadStageView::Start => 0,
        UploadStageView::AwaitUpload => 1,
        UploadStageView::AwaitDelete => 2,
        UploadStageView::AwaitReupload => 3,
        UploadStageView::Uploaded => 4,
        UploadStageView::Failed { .. } => 4,
    }
}

/// An upload never goes back and every request moves it forward, so it sends
/// at most three requests; the existing file is deleted only when the first
/// upload was refused with 409, hence at most once; a stored or failed upload
/// sends nothing more.
pub proof fn lemma_upload_progress(plan: UploadPlan, stage: UploadStageView, event: UploadEvent)
    ensures
        upload_rank(next_upload(plan, stage, event).0) >= upload_rank(stage),
        next_upload(plan, stage, event).1 is Some ==> upload_rank(next_upload(plan, stage, event).0)
            > upload_rank(stage),
        next_upload(plan, stage, event).1 matches Some(RequestView::Delete { url }) ==> stage
            is AwaitUpload && (event matches UploadEvent::Rejected { status, error: _ } && is_conflict(
            status,
        )) && url == plan.url@,
        (stage is Uploaded || stage is Failed) ==> next_upload(plan, stage, event) == (
            stage,
            None::<RequestView>,
        ),
{
}

/// An upload that the registry accepts at once sends exactly one `PUT` and is done.
pub proof fn lemma_upload_accepted(plan: UploadPlan)
    ensures
        next_upload(plan, UploadStageView::Start, UploadEvent::Begin) == (
            UploadStageView::AwaitUpload,
            Some(RequestView::Put { url: plan.url@, data: plan.data@ }),
        ),
        next_upload(plan, UploadStageView::AwaitUpload, UploadEvent::Accepted) == (
            UploadStageView::Uploaded,
            None::<RequestView>,
        ),
{
}

/// Every request an upload sends goes to the file's URL, and every `PUT`, the
/// first and the one after the deletion alike, carries the whole file.
pub proof fn lemma_upload_sends_the_file(plan: UploadPlan, stage: UploadStageView, event: UploadEvent)
    ensures
        match next_upload(plan, stage, event).1 {
            Some(RequestView::Put { url, data }) => url == plan.url@ && data == plan.data@,
            Some(RequestView::Delete { url }) => url == plan.url@,
            Some(_) => false,
            None => true,
        },
{
}

/// The listing has one line per package, in order, the `i`-th line being the
/// row of the `i`-th package; with no package it is the single line
/// `No packages found.`.
pub proof fn lemma_listing_rows(packages: Seq<Package>)
    ensures
        packages.len() == 0 ==> listing_spec(packages) == seq!["No packages found."@],
        packages.len() > 0 ==> listing_spec(packages).len() == packages.len(),
        forall|i: int|
            0 <= i < packages.len() ==> #[trigger] listing_spec(packages)[i] == package_row_spec(
                packages[i].id,
                packages[i].name@,
                packages[i].version@,
                packages[i].package_type@,
            ),
{
}

/// A first upload refused with 409 (the file exists) deletes the file at the
/// same URL and then sends it again; any other refusal stops the upload with
/// that refusal's error; a second refusal stops it too.
pub proof fn lemma_conflict_replaces_the_file(plan: UploadPlan, status: u16, error: CliError)
    ensures
        status == 409 ==> next_upload(plan, UploadStageView::AwaitUpload, UploadEvent::Rejected { status, error })
            == (UploadStageView::AwaitDelete, Some(RequestView::Delete { url: plan.url@ })),
        status != 409 ==> next_upload(plan, UploadStageView::AwaitUpload, UploadEvent::Rejected { status, error })
            == (UploadStageView::Failed { error: error@ }, None::<RequestView>),
        next_upload(plan, UploadStageView::AwaitDelete, UploadEvent::DeleteAnswered) == (
            UploadStageView::AwaitReupload,
            Some(RequestView::Put { url: plan.url@, data: plan.data@ }),
        ),
        next_upload(plan, UploadStageView::AwaitReupload, UploadEvent::Rejected { status, error }) == (
            UploadStageView::Failed { error: error@ },
            None::<RequestView>,
        ),
        next_upload(plan, UploadStageView::AwaitReupload, UploadEvent::Accepted) == (
            UploadStageView::Uploaded,
            None::<RequestView>,
        ),
{
}

proof fn lemma_last_segment_of_name(prefix: Seq<u8>, name: Seq<u8>)
    requires
        forall|i: int| 0 <= i < name.len() ==> name[i] != 0x2f,
        prefix.len() == 0 || prefix.last() == 0x2f,
    ensures
        last_segment(prefix + name) == name,
    decreases name.len(),
{
    if name.len() == 0 {
        assert(prefix + name =~= prefix);
    } else {
        let p = prefix + name;
        assert(p.drop_last() =~= prefix + name.drop_last());
        assert(p.last() == name.last());
        lemma_last_segment_of_name(prefix, name.drop_last());
        assert(name.drop_last().push(name.last()) =~= name);
    }
}

/// A path whose last segment is a plain name (not empty, not `.` or `..`, with
/// no `/`) names that file, whatever directory comes before it, and so does the
/// name alone.
pub proof fn lemma_file_name_of_plain_name(dir: Seq<u8>, name: Seq<u8>)
    requires
        name.len() > 0,
        forall|i: int| 0 <= i < name.len() ==> name[i] != 0x2f,
        name != seq![0x2eu8],
        name != seq![0x2eu8, 0x2eu8],
    ensures
        file_name_spec(dir + seq![0x2fu8] + name) == Some(name),
        file_name_spec(name) == Some(name),
{
    let prefix = dir + seq![0x2fu8];
    assert(prefix.last() == 0x2f);
    lemma_last_segment_of_name(prefix, name);
    lemma_last_segment_of_name(Seq::empty(), name);
    assert(Seq::<u8>::empty() + name =~= name);
    let p = prefix + name;
    assert(p.last() == name.last());
    if name.len() == 1 {
        assert(name =~= seq![name[0]]);
    } else {
        assert(p[p.len() - 2] == name[name.len() - 2]);
    }
    assert(!ends_with_current_dir(p));
    assert(!ends_with_current_dir(name));
}

/// The columns of a package row: when the ID, name and version fit their
/// columns of 8, 40 and 20 characters, the row holds each at its column, with
/// spaces between, and the package type at the end from character 71 on.
pub proof fn lemma_row_columns(id: u64, name: Seq<char>, version: Seq<char>, package_type: Seq<char>)
    requires
        decimal(id as nat).len() <= 8,
        name.len() <= 40,
        version.len() <= 20,
    ensures
        ({
            let row = package_row_spec(id, name, version, package_type);
            &&& row.len() == 71 + package_type.len()
            &&& row.subrange(0, decimal(id as nat).len() as int) == decimal(id as nat)
            &&& row.subrange(9, 9 + name.len() as int) == name
            &&& row.subrange(50, 50 + version.len() as int) == version
            &&& row.subrange(71, row.len() as int) == package_type
            &&& forall|i: int| decimal(id as nat).len() <= i < 9 ==> row[i] == ' '
            &&& forall|i: int| 9 + name.len() <= i < 50 ==> row[i] == ' '
            &&& forall|i: int| 50 + version.len() <= i < 71 ==> row[i] == ' '
        }),
{
    reveal_strlit(" ");
    let d = decimal(id as nat);
    let a = pad_right_spec(d, 8);
    let b = pad_right_spec(name, 40);
    let c = pad_right_spec(version, 20);
    assert(a.len() == 8);
    assert(b.len() == 40);
    assert(c.len() == 20);
    let row = package_row_spec(id, name, version, package_type);
    assert(row =~= a + seq![' '] + b + seq![' '] + c + seq![' '] + package_type);
    assert forall|i: int| 0 <= i < 8 implies row[i] == a[i] by {}
    assert forall|i: int| 0 <= i < 40 implies row[9 + i] == b[i] by {}
    assert forall|i: int| 0 <= i < 20 implies row[50 + i] == c[i] by {}
    assert(row.subrange(0, d.len() as int) =~= d);
    assert(row.subrange(9, 9 + name.len() as int) =~= name);
    assert(row.subrange(50, 50 + version.len() as int) =~= version);
    assert(row.subrange(71, row.len() as int) =~= package_type);
    assert forall|i: int| d.len() <= i < 9 implies row[i] == ' ' by {
        if i < 8 {
            assert(row[i] == a[i]);
        }
    }
    assert forall|i: int| 9 + name.len() <= i < 50 implies row[i] == ' ' by {
        if i < 49 {
            assert(row[i] == b[i - 9]);
        }
    }
    assert forall|i: int| 50 + version.len() <= i < 71 implies row[i] == ' ' by {
        if i < 70 {
            assert(row[i] == c[i - 50]);
        }
    }
}

} // verus!
