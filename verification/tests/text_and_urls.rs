use gitlab_cli::text::{find_first, find_last, join_strings, pad_right, parse_u64, text_eq, u64_to_decimal};
use gitlab_cli::url::{
    artifacts_url, encode_project, graphql_url, package_file_url, package_files_url, package_url,
    packages_url, pipeline_jobs_url, pipelines_by_ref_url, pipelines_by_sha_url, play_url, retry_url,
};

const API: &str = "https://gitlab.com/api/v4";

#[test]
fn decimal_formatting() {
    assert_eq!(u64_to_decimal(0), "0");
    assert_eq!(u64_to_decimal(7), "7");
    assert_eq!(u64_to_decimal(10), "10");
    assert_eq!(u64_to_decimal(1234567890), "1234567890");
    assert_eq!(u64_to_decimal(u64::MAX), "18446744073709551615");
}

#[test]
fn decimal_parsing_follows_std() {
    for text in ["0", "42", "+7", "", "+", "-1", "12a", " 1", "007", "18446744073709551615", "18446744073709551616", "99999999999999999999x"] {
        assert_eq!(parse_u64(text), text.parse::<u64>().ok(), "input {:?}", text);
    }
}

#[test]
fn decimal_roundtrip_law() {
    for n in [0u64, 1, 9, 10, 99, 100, 4242, 1 << 40, u64::MAX - 1, u64::MAX] {
        assert_eq!(parse_u64(&u64_to_decimal(n)), Some(n));
    }
}

#[test]
fn padding_and_joining() {
    assert_eq!(pad_right("ab", 5), "ab   ");
    assert_eq!(pad_right("abcdef", 3), "abcdef");
    assert_eq!(pad_right("", 2), "  ");
    assert_eq!(pad_right("é", 3), "é  ");
    assert_eq!(join_strings(&vec!["a".to_string(), "b".to_string(), "c".to_string()], ", "), "a, b, c");
    assert_eq!(join_strings(&vec![], ", "), "");
    assert_eq!(join_strings(&vec!["only".to_string()], "-"), "only");
}

#[test]
fn searching_and_comparing() {
    assert_eq!(find_first("a=b=c", '='), Some(1));
    assert_eq!(find_last("a=b=c", '='), Some(3));
    assert_eq!(find_first("abc", '='), None);
    assert_eq!(find_last("", '/'), None);
    assert_eq!(find_first("éa=", '='), Some(2));
    assert!(text_eq("manual", "manual"));
    assert!(!text_eq("manual", "Manual"));
}

#[test]
fn project_path_is_one_segment() {
    assert_eq!(encode_project("my-group/my-project"), "my-group%2Fmy-project");
    assert_eq!(encode_project("42"), "42");
}

#[test]
fn unreserved_text_is_not_changed() {
    assert_eq!(encode_project("abc-._~XYZ09"), "abc-._~XYZ09");
}

#[test]
fn delimiters_are_percent_encoded() {
    let encoded = encode_project("a b&c=d?e#f/g+h");
    assert_eq!(encoded, "a%20b%26c%3Dd%3Fe%23f%2Fg%2Bh");
    for c in ['/', '?', '&', '=', '#', ' '] {
        assert!(!encoded.contains(c));
    }
    assert_eq!(encode_project("é"), "%C3%A9");
}

#[test]
fn pipeline_urls() {
    assert_eq!(
        pipelines_by_ref_url(API, "my-group/my-project", "main"),
        "https://gitlab.com/api/v4/projects/my-group%2Fmy-project/pipelines?ref=main&per_page=1&order_by=id&sort=desc"
    );
    assert_eq!(
        pipelines_by_ref_url(API, "g/p", "feature/x"),
        "https://gitlab.com/api/v4/projects/g%2Fp/pipelines?ref=feature%2Fx&per_page=1&order_by=id&sort=desc"
    );
    assert_eq!(
        pipelines_by_sha_url(API, "g/p", "abc123def456"),
        "https://gitlab.com/api/v4/projects/g%2Fp/pipelines?sha=abc123def456&per_page=1&order_by=id&sort=desc"
    );
    assert_eq!(
        pipeline_jobs_url(API, "g/p", 1001),
        "https://gitlab.com/api/v4/projects/g%2Fp/pipelines/1001/jobs?per_page=100"
    );
}

#[test]
fn job_urls() {
    assert_eq!(artifacts_url(API, "g/p", 77), "https://gitlab.com/api/v4/projects/g%2Fp/jobs/77/artifacts");
    assert_eq!(play_url(API, "g/p", 77), "https://gitlab.com/api/v4/projects/g%2Fp/jobs/77/play");
    assert_eq!(retry_url(API, "g/p", 77), "https://gitlab.com/api/v4/projects/g%2Fp/jobs/77/retry");
    assert_eq!(graphql_url(API), "https://gitlab.com/api/v4/../graphql");
}

#[test]
fn package_urls() {
    assert_eq!(
        package_file_url(API, "g/p", "my-package", "1.0.0", "binary.tar.gz"),
        "https://gitlab.com/api/v4/projects/g%2Fp/packages/generic/my-package/1.0.0/binary.tar.gz"
    );
    assert_eq!(
        package_file_url(API, "g/p", "my pkg", "1.0/rc", "a b.txt"),
        "https://gitlab.com/api/v4/projects/g%2Fp/packages/generic/my%20pkg/1.0%2Frc/a%20b.txt"
    );
    assert_eq!(
        packages_url(API, "g/p", None),
        "https://gitlab.com/api/v4/projects/g%2Fp/packages?per_page=100&order_by=version&sort=desc"
    );
    assert_eq!(
        packages_url(API, "g/p", Some("my package")),
        "https://gitlab.com/api/v4/projects/g%2Fp/packages?per_page=100&order_by=version&sort=desc&package_name=my%20package"
    );
    assert_eq!(package_url(API, "g/p", 42), "https://gitlab.com/api/v4/projects/g%2Fp/packages/42");
    assert_eq!(
        package_files_url(API, "g/p", 42),
        "https://gitlab.com/api/v4/projects/g%2Fp/packages/42/package_files"
    );
}

fn percent_decode(text: &str) -> Vec<u8> {
    let bytes = text.as_bytes();
    let mut out = Vec::new();
    let mut i = 0;
    while i < bytes.len() {
        if bytes[i] == b'%' && i + 2 < bytes.len() {
            let hex = std::str::from_utf8(&bytes[i + 1..i + 3]).unwrap();
            out.push(u8::from_str_radix(hex, 16).unwrap());
            i += 3;
        } else {
            out.push(bytes[i]);
            i += 1;
        }
    }
    out
}

#[test]
fn decoding_gives_the_project_back_law() {
    for p in ["my-group/my-project", "a b&c=d?e#f", "caf\u{e9}/\u{65e5}\u{672c}", "100%", "", "~x_y.z-"] {
        let encoded = encode_project(p);
        assert_eq!(String::from_utf8(percent_decode(&encoded)).unwrap(), p);
    }
    assert_eq!(percent_decode("my-group%2Fmy-project"), b"my-group/my-project".to_vec());
}
