use std::io::Write;

use gitlab_cli::archive::{extraction_plan, join_path, ExtractStep};

fn archive() -> Vec<u8> {
    let mut w = zip::ZipWriter::new(std::io::Cursor::new(Vec::new()));
    let stored = zip::write::SimpleFileOptions::default().compression_method(zip::CompressionMethod::Stored);
    let deflated = zip::write::SimpleFileOptions::default().compression_method(zip::CompressionMethod::Deflated);
    w.add_directory("docs/", stored).unwrap();
    w.start_file("docs/readme.txt", stored).unwrap();
    w.write_all(b"hello").unwrap();
    w.start_file("../escape.txt", stored).unwrap();
    w.write_all(b"bad").unwrap();
    w.start_file("top.bin", deflated).unwrap();
    w.write_all(&[7u8; 300]).unwrap();
    w.finish().unwrap().into_inner()
}

fn describe(steps: Vec<ExtractStep>) -> Vec<(String, Option<Vec<u8>>)> {
    steps
        .into_iter()
        .map(|s| match s {
            ExtractStep::CreateDir { path } => (path, None),
            ExtractStep::WriteFile { path, data } => (path, Some(data)),
        })
        .collect()
}

#[test]
fn extraction_skips_escaping_entries_and_keeps_order() {
    let steps = describe(extraction_plan(&archive(), "out").unwrap());
    assert_eq!(
        steps,
        vec![
            ("out/docs/".to_string(), None),
            ("out/docs/readme.txt".to_string(), Some(b"hello".to_vec())),
            ("out/top.bin".to_string(), Some(vec![7u8; 300])),
        ]
    );
}

#[test]
fn extraction_into_a_directory_ending_in_a_slash() {
    let steps = describe(extraction_plan(&archive(), "out/").unwrap());
    assert_eq!(steps[1].0, "out/docs/readme.txt");
    let steps = describe(extraction_plan(&archive(), "").unwrap());
    assert_eq!(steps[2].0, "top.bin");
}

#[test]
fn unreadable_archives_give_no_plan() {
    assert!(extraction_plan(b"not a zip archive", ".").is_none());
    assert!(extraction_plan(&[], ".").is_none());
}

#[test]
fn paths_are_joined_as_path_join_does() {
    assert_eq!(join_path("out", "a/b"), "out/a/b");
    assert_eq!(join_path("out/", "a"), "out/a");
    assert_eq!(join_path("", "a"), "a");
    assert_eq!(join_path(".", "x.txt"), "./x.txt");
    for (dir, rel) in [("out", "a/b"), ("out/", "a"), ("", "a"), (".", "x.txt")] {
        assert_eq!(std::path::Path::new(dir).join(rel).to_str().unwrap(), join_path(dir, rel));
    }
}
