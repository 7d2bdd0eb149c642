use gitlab_cli::archive::{artifact_destination, is_directory_entry};
use gitlab_cli::bodies::job_gid_exec;
use gitlab_cli::client::{
    is_success, load_config, log_request, read_response, resolve_client, select_token, token_header, valid_header_value,
};
use gitlab_cli::error::CliError;
use gitlab_cli::model::{GitLabConfig, JobDetail, Package, TokenKind, TriggeredJob};
use gitlab_cli::packages::format_listing;
use gitlab_cli::packages::format_package_row;
use gitlab_cli::packages::file_name_of;
use gitlab_cli::pipeline::{check_job_status, find_job, interpret_retry_reply, parse_gid_id};

fn job(id: u64, name: &str, status: &str) -> JobDetail {
    JobDetail { id, name: name.to_string(), status: status.to_string() }
}

#[test]
fn busy_jobs_are_refused() {
    let err = check_job_status("running").unwrap_err();
    assert_eq!(err, CliError::JobBusy { status: "running".to_string() });
    assert_eq!(err.message(), "Job is currently 'running' and cannot be triggered");
    assert!(check_job_status("pending").is_err());
    for status in ["manual", "failed", "canceled", "skipped", "success", "Running", ""] {
        assert_eq!(check_job_status(status), Ok(()));
    }
}

#[test]
fn global_ids_are_read() {
    assert_eq!(parse_gid_id("gid://gitlab/Ci::Build/123"), Ok(123));
    assert_eq!(parse_gid_id("42"), Ok(42));
    assert_eq!(parse_gid_id("gid://gitlab/Ci::Build/"), Err(CliError::InvalidJobIdInGid));
    assert_eq!(parse_gid_id("gid://gitlab/Ci::Build/12x"), Err(CliError::InvalidJobIdInGid));
    assert_eq!(parse_gid_id("a/b/+5"), Ok(5));
    assert_eq!(CliError::InvalidJobIdInGid.message(), "Invalid job ID in GID");
}

#[test]
fn global_id_roundtrip_law() {
    for id in [0u64, 1, 987654321, u64::MAX] {
        assert_eq!(parse_gid_id(&job_gid_exec(id)), Ok(id));
    }
}

#[test]
fn first_job_with_the_name_is_found() {
    let jobs = vec![job(1, "build", "success"), job(2, "deploy", "manual"), job(3, "deploy", "failed")];
    let found = find_job(&jobs, "deploy", 9).unwrap();
    assert_eq!(found, job(2, "deploy", "manual"));
}

#[test]
fn missing_job_is_reported() {
    let jobs = vec![job(1, "build", "success")];
    let err = find_job(&jobs, "deploy", 9).unwrap_err();
    assert_eq!(err, CliError::JobNotFound { name: "deploy".to_string(), pipeline_id: 9 });
    assert_eq!(err.message(), "Job 'deploy' not found in pipeline 9");
}

#[test]
fn graphql_answers() {
    let err = interpret_retry_reply(Some(vec!["a".to_string(), "b".to_string()]), Some("gid://gitlab/Ci::Build/5".to_string()))
        .unwrap_err();
    assert_eq!(err.message(), "GraphQL errors: a, b");
    assert_eq!(interpret_retry_reply(None, None), Err(CliError::GraphQlMissingData));
    assert_eq!(CliError::GraphQlMissingData.message(), "GraphQL response missing data");
    assert_eq!(interpret_retry_reply(None, Some("gid://gitlab/Ci::Build/5".to_string())), Ok(TriggeredJob { id: 5 }));
    assert_eq!(interpret_retry_reply(None, Some("gid://gitlab/Ci::Build/x".to_string())), Err(CliError::InvalidJobIdInGid));
    assert_eq!(interpret_retry_reply(Some(vec![]), None).unwrap_err().message(), "GraphQL errors: ");
}

#[test]
fn command_line_token_wins_over_environment() {
    assert_eq!(select_token(true, Some("cli"), Some("env"), None, None), Ok(("cli".to_string(), TokenKind::Private)));
    assert_eq!(select_token(true, None, Some("env"), Some("job"), None), Ok(("env".to_string(), TokenKind::Private)));
    assert_eq!(select_token(false, Some("p"), None, Some("cli"), Some("env")), Ok(("cli".to_string(), TokenKind::Job)));
    assert_eq!(select_token(false, None, None, None, Some("env")), Ok(("env".to_string(), TokenKind::Job)));
}

#[test]
fn missing_tokens_are_reported() {
    let err = select_token(true, None, None, Some("job"), None).unwrap_err();
    assert_eq!(err, CliError::MissingPrivateToken);
    assert_eq!(
        err.message(),
        "--use-private-token is set but no PRIVATE_TOKEN found (use --private-token or set GITLAB_PRIVATE_TOKEN)"
    );
    let err = select_token(false, Some("p"), None, None, None).unwrap_err();
    assert_eq!(err, CliError::MissingJobToken);
    assert_eq!(err.message(), "No JOB_TOKEN found (use --job-token, set CI_JOB_TOKEN, or add --use-private-token)");
}

#[test]
fn token_headers() {
    assert_eq!(token_header(&TokenKind::Private), "PRIVATE-TOKEN");
    assert_eq!(token_header(&TokenKind::Job), "JOB-TOKEN");
}

#[test]
fn client_needs_an_api_url() {
    let err = resolve_client(None, false, None, None, Some("t"), None).err().unwrap();
    assert_eq!(err, CliError::MissingApiUrl);
    assert_eq!(err.message(), "--api-url or CI_API_V4_URL is required");
    let setup = resolve_client(Some("https://h/api/v4"), false, None, None, None, Some("env-job")).ok().unwrap();
    assert_eq!(setup.api_url, "https://h/api/v4");
    assert_eq!(setup.token, "env-job");
    assert_eq!(setup.token_kind, TokenKind::Job);
}

#[test]
fn configuration_precedence() {
    assert_eq!(
        load_config(Some("u"), Some("p"), Some("t"), Some("j")),
        Ok(GitLabConfig { api_url: "u".to_string(), token: "p".to_string() })
    );
    assert_eq!(load_config(Some("u"), None, Some("t"), Some("j")).unwrap().token, "t");
    assert_eq!(load_config(Some("u"), None, None, Some("j")).unwrap().token, "j");
    let err = load_config(None, Some("p"), None, None).unwrap_err();
    assert_eq!(err, CliError::ApiUrlUnset);
    assert_eq!(err.message(), "CI_API_V4_URL environment variable is not set");
    let err = load_config(Some("u"), None, None, None).unwrap_err();
    assert_eq!(err, CliError::TokenUnset);
    assert_eq!(err.message(), "No token found. Set one of: GITLAB_PRIVATE_TOKEN, GITLAB_TOKEN, or CI_JOB_TOKEN");
}

#[test]
fn request_log_line() {
    assert_eq!(log_request("GET", "https://h/x"), "--> GET https://h/x");
}

#[test]
fn success_statuses() {
    assert!(is_success(200));
    assert!(is_success(204));
    assert!(is_success(299));
    assert!(!is_success(199));
    assert!(!is_success(300));
    assert!(!is_success(409));
}

#[test]
fn successful_answers_give_their_body() {
    assert_eq!(read_response(200, "200 OK", "u", vec![1, 2, 3], ""), Ok(vec![1, 2, 3]));
}

#[test]
fn failed_answers_are_reported() {
    let err = read_response(404, "404 Not Found", "https://h/x", b"nope".to_vec(), "nope").unwrap_err();
    assert_eq!(err.message(), "API request failed\n  URL: https://h/x\n  Status: 404 Not Found\n  Response: nope");
    let long = "x".repeat(2000);
    match read_response(500, "500 Internal Server Error", "u", long.clone().into_bytes(), &long).unwrap_err() {
        CliError::RequestFailed { response, .. } => assert_eq!(response.len(), 1024),
        other => panic!("unexpected {:?}", other),
    }
    let wide = "é".repeat(600);
    match read_response(500, "500", "u", wide.clone().into_bytes(), &wide).unwrap_err() {
        CliError::RequestFailed { response, .. } => assert_eq!(response, "é".repeat(512)),
        other => panic!("unexpected {:?}", other),
    }
}

#[test]
fn transport_errors_are_reported_as_is() {
    assert_eq!(CliError::Transport { detail: "connection refused".to_string() }.message(), "connection refused");
}

#[test]
fn package_rows() {
    let p = Package { id: 42, name: "my-package".to_string(), version: "1.0.0".to_string(), package_type: "generic".to_string() };
    assert_eq!(format_package_row(&p), format!("{:<8} {:<40} {:<20} {}", 42, "my-package", "1.0.0", "generic"));
    let long = Package { id: 123456789, name: "n".repeat(45), version: "v".to_string(), package_type: "npm".to_string() };
    assert_eq!(
        format_package_row(&long),
        format!("{:<8} {:<40} {:<20} {}", 123456789, "n".repeat(45), "v", "npm")
    );
}

#[test]
fn package_listing() {
    assert_eq!(format_listing(&vec![]), vec!["No packages found.".to_string()]);
    let ps = vec![
        Package { id: 1, name: "a".to_string(), version: "1".to_string(), package_type: "generic".to_string() },
        Package { id: 2, name: "b".to_string(), version: "2".to_string(), package_type: "generic".to_string() },
    ];
    let lines = format_listing(&ps);
    assert_eq!(lines.len(), 2);
    assert_eq!(lines[1], format_package_row(&ps[1]));
}

#[test]
fn directory_entries() {
    assert!(is_directory_entry("dist/"));
    assert!(!is_directory_entry("dist/app.bin"));
    assert!(!is_directory_entry(""));
}

#[test]
fn archive_destinations() {
    let d = artifact_destination(None, false);
    assert_eq!((d.archive.as_str(), d.extract_to), ("artifacts.zip", None));
    let d = artifact_destination(Some("out/a.zip"), false);
    assert_eq!((d.archive.as_str(), d.extract_to), ("out/a.zip", None));
    let d = artifact_destination(None, true);
    assert_eq!((d.archive.as_str(), d.extract_to), ("./artifacts.zip", Some(".".to_string())));
    let d = artifact_destination(Some("./dist"), true);
    assert_eq!((d.archive.as_str(), d.extract_to), ("./dist/artifacts.zip", Some("./dist".to_string())));
}

#[test]
fn configuration_reads_the_documented_api_variable() {
    // The API root given as CI_API_V4_URL, with only a private token set.
    let config = load_config(Some("https://gitlab.example.com/api/v4"), Some("glpat-x"), None, None).unwrap();
    assert_eq!(config.api_url, "https://gitlab.example.com/api/v4");
    assert_eq!(config.token, "glpat-x");
}

#[test]
fn header_value_characters() {
    assert!(valid_header_value("glpat-ABC_123"));
    assert!(valid_header_value("with space\tand tab"));
    assert!(valid_header_value("caf\u{e9}"));
    assert!(valid_header_value(""));
    assert!(!valid_header_value("line\nbreak"));
    assert!(!valid_header_value("carriage\rreturn"));
    assert!(!valid_header_value("del\u{7f}"));
    assert!(!valid_header_value("nul\u{0}"));
}

#[test]
fn unusable_tokens_are_refused() {
    let err = resolve_client(Some("https://h/api/v4"), true, Some("bad\ntoken"), None, None, None).err().unwrap();
    assert_eq!(err, CliError::InvalidTokenValue);
    assert_eq!(err.message(), "failed to parse header value");
    let err = resolve_client(Some("https://h/api/v4"), false, None, None, Some("x\u{7f}"), Some("good")).err().unwrap();
    assert_eq!(err, CliError::InvalidTokenValue);
    let setup = resolve_client(Some("https://h/api/v4"), true, None, Some("env-private"), Some("j"), None).ok().unwrap();
    assert_eq!(setup.token, "env-private");
    assert_eq!(setup.token_kind, TokenKind::Private);
}

#[test]
fn file_names_of_paths() {
    assert_eq!(file_name_of(b"./dist/binary.tar.gz").unwrap(), "binary.tar.gz");
    assert_eq!(file_name_of(b"binary.tar.gz").unwrap(), "binary.tar.gz");
    assert_eq!(file_name_of(b"/abs/path/file").unwrap(), "file");
    assert_eq!(file_name_of(b"dir/file/").unwrap(), "file");
    assert_eq!(file_name_of(b"dir/file/.").unwrap(), "file");
    assert_eq!(file_name_of(b"dir/file/.//").unwrap(), "file");
    assert_eq!(file_name_of(b"dir//file").unwrap(), "file");
    assert_eq!(file_name_of(b"dir/..x").unwrap(), "..x");
    assert_eq!(file_name_of(b".hidden").unwrap(), ".hidden");
    assert_eq!(file_name_of(b"dir/..").unwrap_err(), CliError::InvalidFilePath);
    assert_eq!(file_name_of(b"..").unwrap_err(), CliError::InvalidFilePath);
    assert_eq!(file_name_of(b"/").unwrap_err(), CliError::InvalidFilePath);
    assert_eq!(file_name_of(b"").unwrap_err(), CliError::InvalidFilePath);
    assert_eq!(file_name_of(b".").unwrap_err(), CliError::InvalidFilePath);
    assert_eq!(file_name_of(b"./").unwrap_err(), CliError::InvalidFilePath);
    assert_eq!(CliError::InvalidFilePath.message(), "Invalid file path");
    assert_eq!(file_name_of("d\u{e9}j\u{e0}/caf\u{e9}.txt".as_bytes()).unwrap(), "caf\u{e9}.txt");
    assert_eq!(file_name_of(b"\xff\xfe/file.bin").unwrap(), "file.bin");
    assert_eq!(file_name_of(b"dir/\xffname").unwrap_err(), CliError::InvalidFileNameEncoding);
    assert_eq!(CliError::InvalidFileNameEncoding.message(), "Invalid file name encoding");
    // The same answers as std's Path::file_name.
    for p in ["a/b.txt", "a/b/", "a/b/.", "a/..", "/", "", ".", "x//y", "..y", "a/./b"] {
        let expected = std::path::Path::new(p).file_name().map(|n| n.to_str().unwrap().to_string());
        assert_eq!(file_name_of(p.as_bytes()).ok(), expected, "path {:?}", p);
    }
}
