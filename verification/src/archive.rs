//! Entries of a downloaded artifacts archive.

use vstd::prelude::*;

verus! {

/// Whether an archive entry is a directory: its name ends with `/`.
pub open spec fn is_directory_name(name: Seq<char>) -> bool {
    name.len() > 0 && name.last() == '/'
}

/// Tells a directory entry of a zip archive from a file entry by its name.
pub fn is_directory_entry(name: &str) -> (b: bool)
    ensures
        b == is_directory_name(name@),
        b == (name@.len() > 0 && name@.last() == '/'),
{
    let len = name.unicode_len();
    len > 0 && name.get_char(len - 1) == '/'
}

/// Where a downloaded artifacts archive is written, and where it is extracted.
#[derive(Debug)]
pub struct ArtifactDestination {
    /// The path of the zip archive.
    pub archive: String,
    /// The directory the archive is extracted into, when it is extracted.
    pub extract_to: Option<String>,
}

/// The archive path and extraction directory for `--output` and `--extract`:
/// without `--extract`, `--output` is the archive path (default `artifacts.zip`);
/// with it, `--output` is the destination directory (default `.`) and the archive
/// is written there as `artifacts.zip` before it is extracted.
pub open spec fn destination_spec(output: Option<Seq<char>>, extract: bool) -> (Seq<char>, Option<Seq<char>>) {
    if extract {
        let dir = match output {
            Some(o) => o,
            None => "."@,
        };
        (dir + "/artifacts.zip"@, Some(dir))
    } else {
        (
            match output {
                Some(o) => o,
                None => "artifacts.zip"@,
            },
            None,
        )
    }
}

/// Decides where the artifacts archive goes.
pub fn artifact_destination(output: Option<&str>, extract: bool) -> (d: ArtifactDestination)
    ensures
        (d.archive@, match d.extract_to {
            Some(x) => Some(x@),
            None => None,
        }) == destination_spec(
            match output {
                Some(o) => Some(o@),
                None => None,
            },
            extract,
        ),
{
    if extract {
        let dir = match output {
            Some(o) => String::from_str(o),
            None => String::from_str("."),
        };
        let mut archive = dir.clone();
        archive.append("/artifacts.zip");
        ArtifactDestination { archive, extract_to: Some(dir) }
    } else {
        let archive = match output {
            Some(o) => String::from_str(o),
            None => String::from_str("artifacts.zip"),
        };
        ArtifactDestination { archive, extract_to: None }
    }
}

/// One entry of a zip archive: its stored name, the name as a path that stays
/// inside the extraction directory (none when the stored name would leave it),
/// and its decompressed contents.
#[derive(Debug)]
pub struct ZipEntry {
    pub name: String,
    pub enclosed: Option<String>,
    pub data: Vec<u8>,
}

/// An entry as plain values.
pub type EntryView = (Seq<char>, Option<Seq<char>>, Seq<u8>);

/// The view of an optional text.
pub open spec fn opt_text(s: Option<String>) -> Option<Seq<char>> {
    match s {
        Some(x) => Some(x@),
        None => None,
    }
}

/// The plain values of an entry.
pub open spec fn entry_view(e: ZipEntry) -> EntryView {
    (e.name@, opt_text(e.enclosed), e.data@)
}

/// Whether the enclosed name of an entry, when there is one, is its stored name,
/// holds no NUL and does not start at the root.
pub open spec fn enclosed_is_name(e: EntryView) -> bool {
    match e.1 {
        Some(p) => p == e.0 && !p.contains('\0') && !(p.len() > 0 && p[0] == '/'),
        None => true,
    }
}

/// The entries that the `zip` crate reads from an archive, in the order of its
/// central directory, or none when it cannot read the archive or one of its entries.
pub uninterp spec fn zip_entries(archive: Seq<u8>) -> Option<Seq<(Seq<char>, Option<Seq<char>>, Seq<u8>)>>;

/// Reads every entry of a zip archive with the `zip` crate.
///
/// Trusted: `zip::ZipArchive::new` over the bytes, then for each index
/// `by_index`, `name`, `enclosed_name` and the decompressed contents; the result
/// depends on the bytes alone and is named `zip_entries`. Any error of the crate
/// gives `None`. From the source of `enclosed_name` (`types.rs`): when there is an
/// enclosed name it is the stored name itself, which holds no NUL and does not
/// start at the root.
#[verifier::external_body]
fn read_zip_entries(archive: &[u8]) -> (r: Option<Vec<ZipEntry>>)
    ensures
        match r {
            Some(es) => zip_entries(archive@) == Some(es@.map_values(|e: ZipEntry| entry_view(e))),
            None => zip_entries(archive@) is None,
        },
        match r {
            Some(es) => forall|i: int| 0 <= i < es@.len() ==> enclosed_is_name(#[trigger] entry_view(es@[i])),
            None => true,
        },
{
    let mut zip = zip::ZipArchive::new(std::io::Cursor::new(archive)).ok()?;
    let mut entries = Vec::new();
    for i in 0..zip.len() {
        let mut file = zip.by_index(i).ok()?;
        let mut data = Vec::new();
        std::io::Read::read_to_end(&mut file, &mut data).ok()?;
        let enclosed = file.enclosed_name().map(|p| p.to_string_lossy().into_owned());
        entries.push(ZipEntry { name: file.name().to_string(), enclosed, data });
    }
    Some(entries)
}

/// What extracting an entry does.
#[derive(Debug)]
pub enum ExtractStep {
    /// Create this directory (and the missing ones above it).
    CreateDir { path: String },
    /// Write this file (creating the missing directories above it).
    WriteFile { path: String, data: Vec<u8> },
}

/// An extraction step as plain values.
pub enum ExtractStepView {
    CreateDir { path: Seq<char> },
    WriteFile { path: Seq<char>, data: Seq<u8> },
}

impl View for ExtractStep {
    type V = ExtractStepView;

    open spec fn view(&self) -> ExtractStepView {
        match self {
            ExtractStep::CreateDir { path } => ExtractStepView::CreateDir { path: path@ },
            ExtractStep::WriteFile { path, data } => ExtractStepView::WriteFile {
                path: path@,
                data: data@,
            },
        }
    }
}

/// The views of a list of steps.
pub open spec fn steps_view(steps: Seq<ExtractStep>) -> Seq<ExtractStepView> {
    steps.map_values(|s: ExtractStep| s@)
}

/// `rel` below the directory `dir`, as `Path::join` puts a relative path below
/// another: a `/` between them unless `dir` is empty or already ends with one.
pub open spec fn join_path_spec(dir: Seq<char>, rel: Seq<char>) -> Seq<char> {
    if dir.len() == 0 {
        rel
    } else if dir.last() == '/' {
        dir + rel
    } else {
        dir + seq!['/'] + rel
    }
}

/// Puts the relative path `rel` below the directory `dir`.
pub fn join_path(dir: &str, rel: &str) -> (r: String)
    ensures
        r@ == join_path_spec(dir@, rel@),
{
    let n = dir.unicode_len();
    let mut r = String::from_str(dir);
    if n > 0 && dir.get_char(n - 1) != '/' {
        r.append("/");
        proof {
            reveal_strlit("/");
        }
    }
    r.append(rel);
    r
}

/// What extracting one entry into `dest` does: an entry without an enclosed
/// name is skipped; a directory entry (its name ends with `/`) is created, and
/// any other entry is written.
pub open spec fn entry_steps(dest: Seq<char>, e: EntryView) -> Seq<ExtractStepView> {
    match e.1 {
        None => Seq::empty(),
        Some(rel) => if is_directory_name(e.0) {
            seq![ExtractStepView::CreateDir { path: join_path_spec(dest, rel) }]
        } else {
            seq![ExtractStepView::WriteFile { path: join_path_spec(dest, rel), data: e.2 }]
        },
    }
}

/// What extracting all the entries into `dest` does, entry by entry in order.
pub open spec fn plan_spec(dest: Seq<char>, es: Seq<EntryView>) -> Seq<ExtractStepView>
    decreases es.len(),
{
    if es.len() == 0 {
        Seq::empty()
    } else {
        plan_spec(dest, es.drop_last()) + entry_steps(dest, es.last())
    }
}

/// The steps that extract these entries into `dest_dir`.
pub fn plan_extraction(dest_dir: &str, entries: Vec<ZipEntry>) -> (steps: Vec<ExtractStep>)
    ensures
        steps_view(steps@) == plan_spec(dest_dir@, entries@.map_values(|e: ZipEntry| entry_view(e))),
{
    let ghost all = entries@.map_values(|e: ZipEntry| entry_view(e));
    let mut steps: Vec<ExtractStep> = Vec::new();
    let mut i: usize = 0;
    while i < entries.len()
        invariant
            i <= entries@.len(),
            all == entries@.map_values(|e: ZipEntry| entry_view(e)),
            steps_view(steps@) == plan_spec(dest_dir@, all.take(i as int)),
        decreases entries@.len() - i,
    {
        assert(all.take(i + 1).drop_last() =~= all.take(i as int));
        assert(all.take(i + 1).last() == entry_view(entries@[i as int]));
        let ghost before = steps@;
        let e = &entries[i];
        match &e.enclosed {
            None => {},
            Some(rel) => {
                let path = join_path(dest_dir, rel.as_str());
                if is_directory_entry(e.name.as_str()) {
                    steps.push(ExtractStep::CreateDir { path });
                } else {
                    steps.push(ExtractStep::WriteFile { path, data: e.data.clone() });
                }
                assert(steps_view(steps@) =~= steps_view(before).push(steps@.last()@));
            },
        }
        assert(steps_view(steps@) =~= plan_spec(dest_dir@, all.take(i + 1)));
        i = i + 1;
    }
    assert(all.take(entries@.len() as int) =~= all);
    steps
}

/// Reads a zip archive and gives the steps that extract it into `dest_dir`,
/// or `None` when the archive cannot be read.
pub fn extraction_plan(archive: &[u8], dest_dir: &str) -> (r: Option<Vec<ExtractStep>>)
    ensures
        match (r, zip_entries(archive@)) {
            (Some(steps), Some(es)) => steps_view(steps@) == plan_spec(dest_dir@, es),
            (None, None) => true,
            _ => false,
        },
{
    match read_zip_entries(archive) {
        Some(entries) => Some(plan_extraction(dest_dir, entries)),
        None => None,
    }
}

/// Whether `step` is what entry `e` gives when extracted into `dest`.
pub open spec fn step_of_entry(dest: Seq<char>, e: EntryView, step: ExtractStepView) -> bool {
    match e.1 {
        None => false,
        Some(rel) => match step {
            ExtractStepView::CreateDir { path } => path == join_path_spec(dest, rel) && is_directory_name(e.0),
            ExtractStepView::WriteFile { path, data } => path == join_path_spec(dest, rel)
                && !is_directory_name(e.0) && data == e.2,
        },
    }
}

/// Every step of an extraction comes from an entry that has an enclosed name:
/// its path is the destination joined with that name, a directory is created
/// only for a directory entry, and a file gets that entry's contents.
pub proof fn lemma_plan_stays_below(dest: Seq<char>, es: Seq<EntryView>, k: int)
    requires
        0 <= k < plan_spec(dest, es).len(),
    ensures
        exists|i: int| 0 <= i < es.len() && step_of_entry(dest, #[trigger] es[i], plan_spec(dest, es)[k]),
    decreases es.len(),
{
    let init = es.drop_last();
    let head = plan_spec(dest, init);
    if k < head.len() {
        lemma_plan_stays_below(dest, init, k);
        let i = choose|i: int| 0 <= i < init.len() && step_of_entry(dest, #[trigger] init[i], head[k]);
        assert(es[i] == init[i]);
        assert(plan_spec(dest, es)[k] == head[k]);
    } else {
        let i = es.len() - 1;
        assert(es[i] == es.last());
        assert(plan_spec(dest, es)[k] == entry_steps(dest, es.last())[k - head.len()]);
        assert(step_of_entry(dest, es[i], plan_spec(dest, es)[k]));
    }
}

/// An entry is a directory exactly when its stored name ends with `/`.
pub proof fn lemma_directory_iff_trailing_slash(name: Seq<char>)
    ensures
        is_directory_name(name) <==> (name.len() > 0 && name[name.len() - 1] == '/'),
        is_directory_name(name + seq!['/']),
{
    assert((name + seq!['/'])[name.len() as int] == '/');
}

/// What one entry gives: nothing without an enclosed name; otherwise one step
/// at the destination joined with that name, a directory when the stored name
/// ends with `/`, and else the entry's file with all its contents.
pub proof fn lemma_entry_step(dest: Seq<char>, e: EntryView)
    ensures
        e.1 is None ==> entry_steps(dest, e).len() == 0,
        e.1 matches Some(rel) ==> (if e.0.len() > 0 && e.0[e.0.len() - 1] == '/' {
            entry_steps(dest, e) == seq![ExtractStepView::CreateDir { path: join_path_spec(dest, rel) }]
        } else {
            entry_steps(dest, e) == seq![
                ExtractStepView::WriteFile { path: join_path_spec(dest, rel), data: e.2 },
            ]
        }),
{
}

/// Every entry with an enclosed name whose stored name does not end with `/`
/// is written, with all its contents, at the destination joined with that name.
pub proof fn lemma_files_are_written(dest: Seq<char>, es: Seq<EntryView>, i: int, rel: Seq<char>)
    requires
        0 <= i < es.len(),
        es[i].1 == Some(rel),
        !(es[i].0.len() > 0 && es[i].0[es[i].0.len() - 1] == '/'),
    ensures
        exists|k: int|
            0 <= k < plan_spec(dest, es).len() && #[trigger] plan_spec(dest, es)[k]
                == (ExtractStepView::WriteFile { path: join_path_spec(dest, rel), data: es[i].2 }),
    decreases es.len(),
{
    let init = es.drop_last();
    let head = plan_spec(dest, init);
    if i < init.len() {
        assert(init[i] == es[i]);
        lemma_files_are_written(dest, init, i, rel);
        let k = choose|k: int|
            0 <= k < head.len() && #[trigger] head[k]
                == (ExtractStepView::WriteFile { path: join_path_spec(dest, rel), data: es[i].2 });
        assert(plan_spec(dest, es)[k] == head[k]);
    } else {
        assert(es.last() == es[i]);
        let k = head.len() as int;
        assert(plan_spec(dest, es)[k] == entry_steps(dest, es.last())[0]);
    }
}

/// Every entry with an enclosed name whose stored name ends with `/` is
/// created as a directory at the destination joined with that name.
pub proof fn lemma_directories_are_created(dest: Seq<char>, es: Seq<EntryView>, i: int, rel: Seq<char>)
    requires
        0 <= i < es.len(),
        es[i].1 == Some(rel),
        es[i].0.len() > 0 && es[i].0[es[i].0.len() - 1] == '/',
    ensures
        exists|k: int|
            0 <= k < plan_spec(dest, es).len() && #[trigger] plan_spec(dest, es)[k]
                == (ExtractStepView::CreateDir { path: join_path_spec(dest, rel) }),
    decreases es.len(),
{
    let init = es.drop_last();
    let head = plan_spec(dest, init);
    if i < init.len() {
        assert(init[i] == es[i]);
        lemma_directories_are_created(dest, init, i, rel);
        let k = choose|k: int|
            0 <= k < head.len() && #[trigger] head[k]
                == (ExtractStepView::CreateDir { path: join_path_spec(dest, rel) });
        assert(plan_spec(dest, es)[k] == head[k]);
    } else {
        assert(es.last() == es[i]);
        let k = head.len() as int;
        assert(plan_spec(dest, es)[k] == entry_steps(dest, es.last())[0]);
    }
}

/// Without `--extract` the archive is written at `--output`, by default
/// `artifacts.zip`, and nothing is extracted; with it, `--output` (by default
/// the current directory `.`) is the directory extracted into, and the archive
/// is written inside it as `artifacts.zip`.
pub proof fn lemma_destination_follows_output(output: Seq<char>)
    ensures
        destination_spec(Some(output), false) == (output, None::<Seq<char>>),
        destination_spec(None, false) == ("artifacts.zip"@, None::<Seq<char>>),
        destination_spec(Some(output), true) == (output + "/artifacts.zip"@, Some(output)),
        destination_spec(None, true) == ("."@ + "/artifacts.zip"@, Some("."@)),
{
}

} // verus!
